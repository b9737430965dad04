//! What parsing gives back of an exported Markdown checklist.

use vstd::prelude::*;

use crate::text::{
    all_ws, is_ws, lemma_trim_start_all_ws, lines, lines_acc, strip_cr, trim, trim_end, trim_start,
};
use crate::transfer::export::{description_lines, markdown_item, markdown_items, ExportTask};
use crate::transfer::import::{
    markdown_rows, md_flush, md_fold, md_step, task_title, IssueRow, MdState, TaskRow,
};

verus! {

/// Lines written one after another, each ended by `\n`.
pub open spec fn join_lines(ls: Seq<Seq<char>>) -> Seq<char>
    decreases ls.len(),
{
    if ls.len() == 0 {
        seq![]
    } else {
        join_lines(ls.drop_last()) + ls.last() + "\n"@
    }
}

/// A line without `\n` in it.
pub open spec fn plain_line(l: Seq<char>) -> bool {
    !l.contains('\n')
}

/// Lines as `str::lines` gives them back: each with one trailing `\r`
/// removed.
pub open spec fn stripped(ls: Seq<Seq<char>>) -> Seq<Seq<char>> {
    ls.map_values(|l: Seq<char>| strip_cr(l))
}

proof fn lemma_lines_acc_prefix(s: Seq<char>, t: Seq<char>, n: nat)
    requires
        n <= s.len(),
        n <= t.len(),
        s.take(n as int) == t.take(n as int),
    ensures
        lines_acc(s, n) == lines_acc(t, n),
    decreases n,
{
    if n > 0 {
        assert(s.take(n - 1) =~= s.take(n as int).take(n - 1));
        assert(t.take(n - 1) =~= t.take(n as int).take(n - 1));
        assert(s[n - 1] == s.take(n as int)[n - 1]);
        assert(t[n - 1] == t.take(n as int)[n - 1]);
        lemma_lines_acc_prefix(s, t, (n - 1) as nat);
    }
}

proof fn lemma_lines_acc_line(p: Seq<char>, l: Seq<char>, j: nat)
    requires
        lines_acc(p, p.len()).1 == Seq::<char>::empty(),
        j <= l.len(),
        !l.contains('\n'),
    ensures
        lines_acc(p + l + "\n"@, p.len() + j) == (lines_acc(p, p.len()).0, l.take(j as int)),
    decreases j,
{
    let s = p + l + "\n"@;
    if j == 0 {
        assert(s.take(p.len() as int) =~= p.take(p.len() as int));
        lemma_lines_acc_prefix(s, p, p.len());
        assert(l.take(0) =~= Seq::<char>::empty());
    } else {
        lemma_lines_acc_line(p, l, (j - 1) as nat);
        assert(s[p.len() + j - 1] == l[j - 1]);
        if l[j - 1] == '\n' {
            assert(l.contains('\n'));
        }
        assert(l.take(j - 1).push(l[j - 1]) =~= l.take(j as int));
    }
}

proof fn lemma_lines_acc_join(ls: Seq<Seq<char>>)
    requires
        forall|i: int| 0 <= i < ls.len() ==> plain_line(#[trigger] ls[i]),
    ensures
        lines_acc(join_lines(ls), join_lines(ls).len()) == (stripped(ls), Seq::<char>::empty()),
    decreases ls.len(),
{
    if ls.len() == 0 {
        assert(stripped(ls) =~= Seq::<Seq<char>>::empty());
    } else {
        let p = join_lines(ls.drop_last());
        let l = ls.last();
        assert(plain_line(ls[ls.len() - 1]));
        lemma_lines_acc_join(ls.drop_last());
        lemma_lines_acc_line(p, l, l.len());
        let s = p + l + "\n"@;
        reveal_strlit("\n");
        assert(s =~= join_lines(ls));
        assert(l.take(l.len() as int) =~= l);
        assert(s[p.len() + l.len() as int] == '\n');
        assert(stripped(ls.drop_last()).push(strip_cr(l)) =~= stripped(ls));
    }
}

/// `str::lines` gives back lines written one after another, each without
/// one trailing `\r`.
pub proof fn lemma_lines_of_joined(ls: Seq<Seq<char>>)
    requires
        forall|i: int| 0 <= i < ls.len() ==> plain_line(#[trigger] ls[i]),
    ensures
        lines(join_lines(ls)) == stripped(ls),
{
    lemma_lines_acc_join(ls);
}

proof fn lemma_join_one(x: Seq<char>)
    ensures
        join_lines(seq![x]) == x + "\n"@,
{
    let one = seq![x];
    assert(one.drop_last() =~= Seq::<Seq<char>>::empty());
    assert(join_lines(one.drop_last()) == Seq::<char>::empty());
    assert(one.last() == x);
    assert(join_lines(one) =~= x + "\n"@);
}

proof fn lemma_join_lines_concat(a: Seq<Seq<char>>, b: Seq<Seq<char>>)
    ensures
        join_lines(a + b) == join_lines(a) + join_lines(b),
    decreases b.len(),
{
    if b.len() == 0 {
        assert(a + b =~= a);
        assert(join_lines(a) + join_lines(b) =~= join_lines(a));
    } else {
        lemma_join_lines_concat(a, b.drop_last());
        assert((a + b).drop_last() =~= a + b.drop_last());
        assert((a + b).last() == b.last());
        assert(join_lines(a + b) =~= join_lines(a) + join_lines(b));
    }
}

/// The line a checklist item starts with: `- [ ] Title` or `- [x] Title`.
pub open spec fn head_line(t: ExportTask) -> Seq<char> {
    "- ["@ + seq![
        if t.done {
            'x'
        } else {
            ' '
        },
    ] + "] "@ + t.title@
}

/// The description lines an item writes below its head: the non-blank
/// ones, each after two spaces.
pub open spec fn indented(ls: Seq<Seq<char>>) -> Seq<Seq<char>>
    decreases ls.len(),
{
    if ls.len() == 0 {
        seq![]
    } else {
        indented(ls.drop_last()) + if trim(ls.last()).len() == 0 {
            seq![]
        } else {
            seq!["  "@ + ls.last()]
        }
    }
}

/// The lines of one checklist item.
pub open spec fn item_lines(t: ExportTask) -> Seq<Seq<char>> {
    seq![head_line(t)] + indented(lines(t.description@))
}

/// The lines of the checklist of the first `k` tasks.
pub open spec fn checklist_lines(ts: Seq<ExportTask>, k: nat) -> Seq<Seq<char>>
    decreases k,
{
    if k == 0 {
        seq![]
    } else {
        checklist_lines(ts, (k - 1) as nat) + item_lines(ts[k - 1])
    }
}

proof fn lemma_description_lines_joined(ls: Seq<Seq<char>>)
    ensures
        description_lines(ls) == join_lines(indented(ls)),
    decreases ls.len(),
{
    if ls.len() > 0 {
        lemma_description_lines_joined(ls.drop_last());
        let last = if trim(ls.last()).len() == 0 {
            Seq::<Seq<char>>::empty()
        } else {
            seq!["  "@ + ls.last()]
        };
        lemma_join_lines_concat(indented(ls.drop_last()), last);
        if trim(ls.last()).len() != 0 {
            lemma_join_one("  "@ + ls.last());
        } else {
            assert(join_lines(last) =~= Seq::<char>::empty());
        }
        assert(description_lines(ls) =~= join_lines(indented(ls)));
    }
}

proof fn lemma_markdown_items_joined(ts: Seq<ExportTask>, k: nat)
    requires
        k <= ts.len(),
    ensures
        markdown_items(ts, k) == join_lines(checklist_lines(ts, k)),
    decreases k,
{
    if k > 0 {
        let t = ts[k - 1];
        lemma_markdown_items_joined(ts, (k - 1) as nat);
        lemma_description_lines_joined(lines(t.description@));
        lemma_join_lines_concat(seq![head_line(t)], indented(lines(t.description@)));
        lemma_join_lines_concat(checklist_lines(ts, (k - 1) as nat), item_lines(t));
        lemma_join_one(head_line(t));
        assert(markdown_item(t) =~= join_lines(item_lines(t)));
    }
}

/// A task whose checklist item parses back as it was written: a non-empty
/// title without surrounding whitespace or line breaks.
pub open spec fn checklist_ready(t: ExportTask) -> bool {
    &&& t.title@.len() > 0
    &&& trim(t.title@) == t.title@
    &&& !t.title@.contains('\n')
}

proof fn lemma_trim_end_last(x: Seq<char>)
    ensures
        trim_end(x).len() > 0 ==> !is_ws(trim_end(x).last()),
    decreases x.len(),
{
    if x.len() > 0 && is_ws(x.last()) {
        lemma_trim_end_last(x.drop_last());
    }
}

/// No `\n` in `l`, and each of its characters occurs in `s`.
pub open spec fn from_text(l: Seq<char>, s: Seq<char>) -> bool {
    forall|k: int| 0 <= k < l.len() ==> #[trigger] l[k] != '\n' && s.contains(l[k])
}

proof fn lemma_lines_acc_from_text(s: Seq<char>, n: nat)
    requires
        n <= s.len(),
    ensures
        forall|i: int| 0 <= i < lines_acc(s, n).0.len() ==> from_text(#[trigger] lines_acc(s, n).0[i], s),
        from_text(lines_acc(s, n).1, s),
    decreases n,
{
    if n > 0 {
        lemma_lines_acc_from_text(s, (n - 1) as nat);
        let (ls, cur) = lines_acc(s, (n - 1) as nat);
        if s[n - 1] == '\n' {
            let c = strip_cr(cur);
            assert forall|k: int| 0 <= k < c.len() implies #[trigger] c[k] != '\n' && s.contains(c[k]) by {
                assert(c[k] == cur[k]);
            }
            assert forall|i: int| 0 <= i < ls.push(c).len() implies from_text(#[trigger] ls.push(c)[i], s) by {
                if i < ls.len() {
                    assert(ls.push(c)[i] == ls[i]);
                }
            }
        } else {
            let c = cur.push(s[n - 1]);
            assert forall|k: int| 0 <= k < c.len() implies #[trigger] c[k] != '\n' && s.contains(c[k]) by {
                if k < cur.len() {
                    assert(c[k] == cur[k]);
                } else {
                    assert(c[k] == s[n - 1]);
                    assert(s.contains(s[n - 1]));
                }
            }
        }
    }
}

proof fn lemma_lines_from_text(s: Seq<char>)
    ensures
        forall|i: int| 0 <= i < lines(s).len() ==> from_text(#[trigger] lines(s)[i], s),
{
    lemma_lines_acc_from_text(s, s.len());
    let (ls, cur) = lines_acc(s, s.len());
    if cur.len() > 0 {
        assert forall|i: int| 0 <= i < ls.push(cur).len() implies from_text(#[trigger] ls.push(cur)[i], s) by {
            if i < ls.len() {
                assert(ls.push(cur)[i] == ls[i]);
            }
        }
    }
}

proof fn lemma_indented_plain(ls: Seq<Seq<char>>)
    requires
        forall|j: int| 0 <= j < ls.len() ==> plain_line("  "@ + #[trigger] ls[j]),
    ensures
        forall|i: int| 0 <= i < indented(ls).len() ==> plain_line(#[trigger] indented(ls)[i]),
    decreases ls.len(),
{
    if ls.len() > 0 {
        let a = ls.drop_last();
        assert forall|j: int| 0 <= j < a.len() implies plain_line("  "@ + #[trigger] a[j]) by {
            assert(a[j] == ls[j]);
        }
        lemma_indented_plain(a);
        let l = ls.last();
        assert(plain_line("  "@ + ls[ls.len() - 1]));
        let tail = if trim(l).len() == 0 {
            Seq::<Seq<char>>::empty()
        } else {
            seq!["  "@ + l]
        };
        assert forall|i: int| 0 <= i < indented(ls).len() implies plain_line(#[trigger] indented(ls)[i]) by {
            if i < indented(a).len() {
                assert(indented(ls)[i] == indented(a)[i]);
            } else {
                assert(indented(ls)[i] == tail[i - indented(a).len()]);
            }
        }
    }
}

proof fn lemma_item_lines_plain(t: ExportTask)
    requires
        checklist_ready(t),
    ensures
        forall|i: int| 0 <= i < item_lines(t).len() ==> plain_line(#[trigger] item_lines(t)[i]),
{
    let title = t.title@;
    let desc = t.description@;
    let h = head_line(t);
    reveal_strlit("- [");
    reveal_strlit("] ");
    reveal_strlit("  ");
    assert(h.len() == title.len() + 6);
    assert forall|k: int| 0 <= k < h.len() implies h[k] != '\n' by {
        if k >= 6 {
            assert(h[k] == title[k - 6]);
            if title[k - 6] == '\n' {
                assert(title.contains('\n'));
            }
        }
    }
    assert(plain_line(h));
    let ls = lines(desc);
    lemma_lines_from_text(desc);
    assert forall|j: int| 0 <= j < ls.len() implies plain_line("  "@ + #[trigger] ls[j]) by {
        let l = "  "@ + ls[j];
        assert(from_text(ls[j], desc));
        assert forall|k: int| 0 <= k < l.len() implies l[k] != '\n' by {
            if k >= 2 {
                assert(l[k] == ls[j][k - 2]);
            }
        }
    }
    lemma_indented_plain(ls);
    assert forall|i: int| 0 <= i < item_lines(t).len() implies plain_line(#[trigger] item_lines(t)[i]) by {
        if i == 0 {
            assert(item_lines(t)[0] == h);
        } else {
            assert(item_lines(t)[i] == indented(ls)[i - 1]);
        }
    }
}

proof fn lemma_checklist_lines_plain(ts: Seq<ExportTask>, k: nat)
    requires
        k <= ts.len(),
        forall|i: int| 0 <= i < ts.len() ==> checklist_ready(#[trigger] ts[i]),
    ensures
        forall|i: int| 0 <= i < checklist_lines(ts, k).len() ==> plain_line(
            #[trigger] checklist_lines(ts, k)[i],
        ),
    decreases k,
{
    if k > 0 {
        lemma_checklist_lines_plain(ts, (k - 1) as nat);
        let a = checklist_lines(ts, (k - 1) as nat);
        let b = item_lines(ts[k - 1]);
        assert(checklist_ready(ts[k - 1]));
        lemma_item_lines_plain(ts[k - 1]);
        assert forall|i: int| 0 <= i < (a + b).len() implies plain_line(#[trigger] (a + b)[i]) by {
            if i < a.len() {
                assert((a + b)[i] == a[i]);
            } else {
                assert((a + b)[i] == b[i - a.len()]);
            }
        }
    }
}

/// The description parsing gives back of these description lines: the
/// non-blank ones, each trimmed, joined by `\n`; none when all are blank.
pub open spec fn parsed_description(ls: Seq<Seq<char>>) -> Option<Seq<char>>
    decreases ls.len(),
{
    if ls.len() == 0 {
        None
    } else {
        let d = parsed_description(ls.drop_last());
        let l = trim(ls.last());
        if l.len() == 0 {
            d
        } else {
            Some(
                match d {
                    Some(x) => x.push('\n') + l,
                    None => l,
                },
            )
        }
    }
}

/// The row a checklist item starting on `line` parses into.
pub open spec fn parsed_item(t: ExportTask, line: int) -> TaskRow {
    TaskRow {
        line,
        title: t.title@,
        description: parsed_description(lines(t.description@)),
        due_date: None,
        priority: None,
    }
}

/// The rows of the first `k` items: each valid, on the line its item starts.
pub open spec fn parsed_items(ts: Seq<ExportTask>, k: nat) -> Seq<Result<TaskRow, IssueRow>> {
    Seq::new(k, |i: int| Ok(parsed_item(ts[i], checklist_lines(ts, i as nat).len() + 1int)))
}

proof fn lemma_checklist_item_at(ts: Seq<ExportTask>, i: nat, n: nat)
    requires
        i < n <= ts.len(),
    ensures
        checklist_lines(ts, i).len() + item_lines(ts[i as int]).len() <= checklist_lines(ts, n).len(),
        forall|j: int| 0 <= j < item_lines(ts[i as int]).len() ==> checklist_lines(ts, n)[checklist_lines(ts, i).len() + j]
            == #[trigger] item_lines(ts[i as int])[j],
    decreases n,
{
    let a = checklist_lines(ts, (n - 1) as nat);
    let b = item_lines(ts[n - 1]);
    if n == i + 1 {
        assert forall|j: int| 0 <= j < item_lines(ts[i as int]).len() implies checklist_lines(ts, n)[checklist_lines(ts, i).len() + j]
            == #[trigger] item_lines(ts[i as int])[j] by {
            assert((a + b)[a.len() + j] == b[j]);
        }
    } else {
        lemma_checklist_item_at(ts, i, (n - 1) as nat);
        assert forall|j: int| 0 <= j < item_lines(ts[i as int]).len() implies checklist_lines(ts, n)[checklist_lines(ts, i).len() + j]
            == #[trigger] item_lines(ts[i as int])[j] by {
            assert((a + b)[checklist_lines(ts, i).len() + j] == a[checklist_lines(ts, i).len() + j]);
        }
    }
}

proof fn lemma_trim_after_space(x: Seq<char>)
    ensures
        trim(" "@ + x) == trim(x),
        trim("  "@ + x) == trim(x),
{
    reveal_strlit(" ");
    reveal_strlit("  ");
    let a = " "@ + x;
    let b = "  "@ + x;
    assert(a.drop_first() =~= x);
    assert(b.drop_first() =~= a);
    assert(is_ws(' '));
    assert(trim_start(a) == trim_start(x));
    assert(trim_start(b) == trim_start(a));
}

proof fn lemma_trim_start_drop_last(x: Seq<char>)
    requires
        trim_start(x).len() > 0,
    ensures
        trim_start(x.drop_last()) == trim_start(x).drop_last(),
        trim_start(x).last() == x.last(),
    decreases x.len(),
{
    if x.len() > 0 && is_ws(x[0]) {
        let t = x.drop_first();
        assert(trim_start(x) == trim_start(t));
        if t.len() > 0 {
            lemma_trim_start_drop_last(t);
            assert(x.drop_last().len() > 0);
            assert(x.drop_last()[0] == x[0]);
            assert(x.drop_last().drop_first() =~= t.drop_last());
            assert(t.last() == x.last());
        }
    } else {
        if x.drop_last().len() > 0 {
            assert(x.drop_last()[0] == x[0]);
        }
    }
}

/// Trimming ignores a trailing whitespace character.
proof fn lemma_trim_ws_last(x: Seq<char>)
    requires
        x.len() > 0,
        is_ws(x.last()),
    ensures
        trim(x) == trim(x.drop_last()),
{
    lemma_trim_start_all_ws(x);
    lemma_trim_start_all_ws(x.drop_last());
    if trim_start(x).len() == 0 {
        assert(all_ws(x));
        assert forall|i: int| 0 <= i < x.drop_last().len() implies #[trigger] is_ws(x.drop_last()[i]) by {
            assert(x.drop_last()[i] == x[i]);
        }
        assert(trim_start(x.drop_last()).len() == 0);
    } else {
        lemma_trim_start_drop_last(x);
    }
}

/// Trimming ignores a trailing `\r`.
proof fn lemma_trim_strip_cr(x: Seq<char>)
    ensures
        trim(strip_cr(x)) == trim(x),
{
    if x.len() > 0 && x.last() == '\r' {
        assert(is_ws('\r'));
        lemma_trim_ws_last(x);
    }
}

proof fn lemma_head_step(st: MdState, t: ExportTask, number: int)
    requires
        checklist_ready(t),
    ensures
        md_step(st, head_line(t), number) == (MdState {
            rows: md_flush(st),
            open: Some(
                TaskRow {
                    line: number,
                    title: t.title@,
                    description: None,
                    due_date: None,
                    priority: None,
                },
            ),
        }),
        strip_cr(head_line(t)) == head_line(t),
{
    let title = t.title@;
    let h = head_line(t);
    reveal_strlit("- [");
    reveal_strlit("] ");
    reveal_strlit(" ");
    assert(h.len() == title.len() + 6);
    assert(h[0] == '-' && h[1] == ' ' && h[2] == '[' && h[4] == ']' && h[5] == ' ');
    assert(!is_ws('-'));
    assert(trim_start(h) == h);
    lemma_trim_end_last(trim_start(title));
    assert(h.last() == title.last());
    assert(trim_end(h) == h);
    assert(h.subrange(5, h.len() as int) =~= " "@ + title);
    lemma_trim_after_space(title);
    assert(task_title(h) == Some(title));
    assert(!is_ws(h.last()));
}

proof fn lemma_indented_step(st: MdState, l: Seq<char>, number: int)
    requires
        st.open is Some,
        trim(l).len() > 0,
    ensures
        md_step(st, strip_cr("  "@ + l), number) == (MdState {
            rows: st.rows,
            open: Some(
                TaskRow {
                    line: st.open->0.line,
                    title: st.open->0.title,
                    description: Some(
                        match st.open->0.description {
                            Some(d) => d.push('\n') + trim(l),
                            None => trim(l),
                        },
                    ),
                    due_date: st.open->0.due_date,
                    priority: st.open->0.priority,
                },
            ),
        }),
{
    reveal_strlit("  ");
    let full = "  "@ + l;
    let line = strip_cr(full);
    lemma_trim_after_space(l);
    lemma_trim_strip_cr(full);
    assert(l.len() > 0);
    assert(line[0] == ' ');
    assert(task_title(line) is None);
}

proof fn lemma_indented_prefix(ls: Seq<Seq<char>>, q: int)
    requires
        0 <= q <= ls.len(),
    ensures
        indented(ls.take(q)).len() <= indented(ls).len(),
        indented(ls).take(indented(ls.take(q)).len() as int) == indented(ls.take(q)),
    decreases ls.len(),
{
    if q == ls.len() {
        assert(ls.take(q) =~= ls);
        assert(indented(ls).take(indented(ls).len() as int) =~= indented(ls));
    } else {
        let a = ls.drop_last();
        lemma_indented_prefix(a, q);
        assert(a.take(q) =~= ls.take(q));
        let n = indented(ls.take(q)).len() as int;
        assert(indented(ls).take(n) =~= indented(a).take(n));
    }
}

proof fn lemma_description_steps(
    all_lines: Seq<Seq<char>>,
    base: int,
    t: ExportTask,
    st0: MdState,
    q: int,
)
    requires
        0 <= base,
        base + item_lines(t).len() <= all_lines.len(),
        forall|j: int|
            0 <= j < item_lines(t).len() ==> all_lines[base + j] == strip_cr(#[trigger] item_lines(t)[j]),
        md_fold(all_lines, (base + 1) as nat) == (MdState {
            rows: md_flush(st0),
            open: Some(
                TaskRow {
                    line: base + 1,
                    title: t.title@,
                    description: None,
                    due_date: None,
                    priority: None,
                },
            ),
        }),
        0 <= q <= lines(t.description@).len(),
    ensures
        md_fold(all_lines, (base + 1 + indented(lines(t.description@).take(q)).len()) as nat) == (MdState {
            rows: md_flush(st0),
            open: Some(
                TaskRow {
                    line: base + 1,
                    title: t.title@,
                    description: parsed_description(lines(t.description@).take(q)),
                    due_date: None,
                    priority: None,
                },
            ),
        }),
    decreases q,
{
    let ls = lines(t.description@);
    if q == 0 {
        assert(ls.take(0).len() == 0);
    } else {
        lemma_description_steps(all_lines, base, t, st0, q - 1);
        let prev = ls.take(q - 1);
        let cur = ls.take(q);
        assert(cur.drop_last() =~= prev);
        assert(cur.last() == ls[q - 1]);
        if trim(ls[q - 1]).len() > 0 {
            lemma_indented_prefix(ls, q);
            let m = indented(prev).len() as int;
            assert(indented(cur) == indented(prev) + seq!["  "@ + ls[q - 1]]);
            assert(indented(cur)[m] == "  "@ + ls[q - 1]);
            assert(indented(ls)[m] == indented(cur)[m]);
            assert(item_lines(t)[1 + m] == indented(ls)[m]);
            assert(all_lines[base + 1 + m] == strip_cr("  "@ + ls[q - 1]));
            let st = md_fold(all_lines, (base + 1 + m) as nat);
            lemma_indented_step(st, ls[q - 1], base + 1 + m + 1);
            assert(md_fold(all_lines, (base + 1 + m + 1) as nat) == md_step(st, all_lines[base + 1 + m], base + 1 + m + 1));
        } else {
            assert(indented(cur) =~= indented(prev));
        }
    }
}

proof fn lemma_item_steps(all_lines: Seq<Seq<char>>, base: int, t: ExportTask)
    requires
        checklist_ready(t),
        0 <= base,
        base + item_lines(t).len() <= all_lines.len(),
        forall|j: int|
            0 <= j < item_lines(t).len() ==> all_lines[base + j] == strip_cr(#[trigger] item_lines(t)[j]),
    ensures
        md_fold(all_lines, (base + item_lines(t).len()) as nat) == (MdState {
            rows: md_flush(md_fold(all_lines, base as nat)),
            open: Some(parsed_item(t, base + 1)),
        }),
{
    let st0 = md_fold(all_lines, base as nat);
    assert(all_lines[base + 0] == strip_cr(item_lines(t)[0]));
    assert(item_lines(t)[0] == head_line(t));
    lemma_head_step(st0, t, base + 1);
    let ls = lines(t.description@);
    lemma_description_steps(all_lines, base, t, st0, ls.len() as int);
    assert(ls.take(ls.len() as int) =~= ls);
}

proof fn lemma_items_steps(ts: Seq<ExportTask>, n: nat, i: nat)
    requires
        n <= ts.len(),
        i <= n,
        forall|j: int| 0 <= j < ts.len() ==> checklist_ready(#[trigger] ts[j]),
    ensures
        md_flush(md_fold(stripped(checklist_lines(ts, n)), checklist_lines(ts, i).len()))
            == parsed_items(ts, i),
        i > 0 ==> md_fold(stripped(checklist_lines(ts, n)), checklist_lines(ts, i).len()).open is Some,
    decreases i,
{
    let all_lines = stripped(checklist_lines(ts, n));
    if i == 0 {
        assert(parsed_items(ts, 0) =~= Seq::<Result<TaskRow, IssueRow>>::empty());
    } else {
        let p = (i - 1) as nat;
        lemma_items_steps(ts, n, p);
        lemma_checklist_item_at(ts, p, n);
        let base = checklist_lines(ts, p).len() as int;
        let t = ts[p as int];
        assert(checklist_ready(t));
        assert forall|j: int| 0 <= j < item_lines(t).len() implies all_lines[base + j] == strip_cr(
            #[trigger] item_lines(t)[j],
        ) by {
            assert(checklist_lines(ts, n)[base + j] == item_lines(t)[j]);
        }
        lemma_item_steps(all_lines, base, t);
        assert(checklist_lines(ts, i).len() == base + item_lines(t).len());
        let st = md_fold(all_lines, checklist_lines(ts, i).len());
        assert(md_flush(st) =~= parsed_items(ts, i));
    }
}

/// Parsing the Markdown export of tasks whose items read back cleanly
/// (a non-empty title without surrounding whitespace or line breaks) gives
/// back one valid row per task,
/// in order: its title, the non-blank lines of its description each
/// trimmed and joined by `\n` (none when there are none), no due date or
/// priority, on the line its item starts on.
pub proof fn lemma_checklist_round_trip(ts: Seq<ExportTask>)
    requires
        forall|i: int| 0 <= i < ts.len() ==> checklist_ready(#[trigger] ts[i]),
    ensures
        markdown_rows(markdown_items(ts, ts.len())) == parsed_items(ts, ts.len()),
{
    let n = ts.len();
    lemma_markdown_items_joined(ts, n);
    lemma_checklist_lines_plain(ts, n);
    lemma_lines_of_joined(checklist_lines(ts, n));
    lemma_items_steps(ts, n, n);
}

} // verus!
