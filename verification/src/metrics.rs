//! Low-cardinality labels for operational metrics. Every label is drawn
//! from a fixed set, so request-derived strings can never grow the label
//! space.

use vstd::prelude::*;

use crate::text::{chars_eq_str, chars_of, decimal, push_decimal, push_str, starts_with_at};
use vstd::pervasive::VecAdditionalExecFns;

verus! {

/// Pre-formatted `le` label values of the request-duration histogram
/// buckets, in seconds. Kept as explicit float strings ("1.0", never "1")
/// because the Prometheus text format expects float representation.
pub const DURATION_BUCKET_LABELS: [&'static str; 11] = [
    "0.005",
    "0.01",
    "0.025",
    "0.05",
    "0.1",
    "0.25",
    "0.5",
    "1.0",
    "2.5",
    "5.0",
    "10.0",
];

/// The route label of a request path: the known routes, `/mcp` for the MCP
/// endpoint and anything below it, and `other` for every other path.
pub open spec fn route_of(path: Seq<char>) -> Seq<char> {
    if path == "/healthz"@ {
        "/healthz"@
    } else if path == "/readyz"@ {
        "/readyz"@
    } else if path == "/metrics"@ {
        "/metrics"@
    } else if path == "/mcp"@ || crate::text::has_prefix_at(path, "/mcp/"@, 0) {
        "/mcp"@
    } else {
        "other"@
    }
}

/// Route label for an HTTP request path.
pub fn route_label(path: &str) -> (r: &'static str)
    ensures
        r@ == route_of(path@),
{
    let p = chars_of(path);
    if chars_eq_str(&p, "/healthz") {
        "/healthz"
    } else if chars_eq_str(&p, "/readyz") {
        "/readyz"
    } else if chars_eq_str(&p, "/metrics") {
        "/metrics"
    } else if chars_eq_str(&p, "/mcp") || starts_with_at(&p, &chars_of("/mcp/"), 0) {
        "/mcp"
    } else {
        "other"
    }
}

/// The method label of an HTTP method: the common methods keep their name,
/// every other method is `OTHER`.
pub open spec fn method_of(method: Seq<char>) -> Seq<char> {
    if method == "GET"@ || method == "POST"@ || method == "PUT"@ || method == "DELETE"@ || method
        == "PATCH"@ || method == "HEAD"@ || method == "OPTIONS"@ {
        method
    } else {
        "OTHER"@
    }
}

/// Method label for an HTTP method.
pub fn method_label(method: &str) -> (r: &'static str)
    ensures
        r@ == method_of(method@),
{
    let m = chars_of(method);
    if chars_eq_str(&m, "GET") {
        "GET"
    } else if chars_eq_str(&m, "POST") {
        "POST"
    } else if chars_eq_str(&m, "PUT") {
        "PUT"
    } else if chars_eq_str(&m, "DELETE") {
        "DELETE"
    } else if chars_eq_str(&m, "PATCH") {
        "PATCH"
    } else if chars_eq_str(&m, "HEAD") {
        "HEAD"
    } else if chars_eq_str(&m, "OPTIONS") {
        "OPTIONS"
    } else {
        "OTHER"
    }
}

/// The status-class label of an HTTP status.
pub open spec fn status_class_of(status: u16) -> Seq<char> {
    let c = status / 100;
    if c == 1 {
        "1xx"@
    } else if c == 2 {
        "2xx"@
    } else if c == 3 {
        "3xx"@
    } else if c == 4 {
        "4xx"@
    } else if c == 5 {
        "5xx"@
    } else {
        "other"@
    }
}

/// Status-class label (`2xx`, `4xx`, ...) for an HTTP status code.
pub fn status_class_label(status: u16) -> (r: &'static str)
    ensures
        r@ == status_class_of(status),
{
    let c = status / 100;
    if c == 1 {
        "1xx"
    } else if c == 2 {
        "2xx"
    } else if c == 3 {
        "3xx"
    } else if c == 4 {
        "4xx"
    } else if c == 5 {
        "5xx"
    } else {
        "other"
    }
}

/// The route labels: the only values `route_label` returns.
pub open spec fn is_route_label(l: Seq<char>) -> bool {
    l == "/healthz"@ || l == "/readyz"@ || l == "/metrics"@ || l == "/mcp"@ || l == "other"@
}

/// Labels are low-cardinality: whatever path, method or status a client
/// sends, the labels come from fixed sets of five, eight and six values.
pub proof fn lemma_labels_are_bounded(path: Seq<char>, method: Seq<char>, status: u16)
    ensures
        is_route_label(route_of(path)),
        method_of(method) == "GET"@ || method_of(method) == "POST"@ || method_of(method) == "PUT"@
            || method_of(method) == "DELETE"@ || method_of(method) == "PATCH"@ || method_of(method)
            == "HEAD"@ || method_of(method) == "OPTIONS"@ || method_of(method) == "OTHER"@,
        status_class_of(status) == "1xx"@ || status_class_of(status) == "2xx"@ || status_class_of(
            status,
        ) == "3xx"@ || status_class_of(status) == "4xx"@ || status_class_of(status) == "5xx"@
            || status_class_of(status) == "other"@,
{
}

// ----- Label order -------------------------------------------------------------

/// Lexicographic order of label text by character, which for UTF-8 text is
/// the byte order of `str`.
pub open spec fn text_lt(a: Seq<char>, b: Seq<char>) -> bool
    decreases a.len(),
{
    if a.len() == 0 {
        b.len() > 0
    } else if b.len() == 0 {
        false
    } else if a[0] != b[0] {
        a[0] < b[0]
    } else {
        text_lt(a.drop_first(), b.drop_first())
    }
}

/// Lexicographic order of label tuples, element by element, as tuples of
/// `&str` are ordered.
pub open spec fn labels_lt(a: Seq<Seq<char>>, b: Seq<Seq<char>>) -> bool
    decreases a.len(),
{
    if a.len() == 0 {
        b.len() > 0
    } else if b.len() == 0 {
        false
    } else if a[0] != b[0] {
        text_lt(a[0], b[0])
    } else {
        labels_lt(a.drop_first(), b.drop_first())
    }
}

/// No text is before itself.
pub proof fn lemma_text_lt_irreflexive(a: Seq<char>)
    ensures
        !text_lt(a, a),
    decreases a.len(),
{
    if a.len() > 0 {
        lemma_text_lt_irreflexive(a.drop_first());
    }
}

/// The text order is transitive.
pub proof fn lemma_text_lt_transitive(a: Seq<char>, b: Seq<char>, c: Seq<char>)
    requires
        text_lt(a, b),
        text_lt(b, c),
    ensures
        text_lt(a, c),
    decreases a.len(),
{
    if a.len() > 0 && b.len() > 0 && c.len() > 0 && a[0] == b[0] && b[0] == c[0] {
        lemma_text_lt_transitive(a.drop_first(), b.drop_first(), c.drop_first());
    }
}

/// Of two different texts, one is before the other.
pub proof fn lemma_text_lt_total(a: Seq<char>, b: Seq<char>)
    requires
        a != b,
    ensures
        text_lt(a, b) || text_lt(b, a),
    decreases a.len(),
{
    if a.len() == 0 && b.len() == 0 {
        assert(a =~= b);
    }
    if a.len() > 0 && b.len() > 0 && a[0] == b[0] {
        if a.drop_first() == b.drop_first() {
            assert(a =~= seq![a[0]] + a.drop_first());
            assert(b =~= seq![b[0]] + b.drop_first());
            assert(a == b);
        } else {
            lemma_text_lt_total(a.drop_first(), b.drop_first());
        }
    }
}

pub proof fn lemma_labels_lt_irreflexive(a: Seq<Seq<char>>)
    ensures
        !labels_lt(a, a),
    decreases a.len(),
{
    if a.len() > 0 {
        lemma_labels_lt_irreflexive(a.drop_first());
    }
}

pub proof fn lemma_labels_lt_transitive(a: Seq<Seq<char>>, b: Seq<Seq<char>>, c: Seq<Seq<char>>)
    requires
        labels_lt(a, b),
        labels_lt(b, c),
    ensures
        labels_lt(a, c),
    decreases a.len(),
{
    if a.len() > 0 && b.len() > 0 && c.len() > 0 {
        if a[0] == b[0] && b[0] == c[0] {
            lemma_labels_lt_transitive(a.drop_first(), b.drop_first(), c.drop_first());
        } else if a[0] != b[0] && b[0] != c[0] {
            lemma_text_lt_transitive(a[0], b[0], c[0]);
            if a[0] == c[0] {
                lemma_text_lt_irreflexive(a[0]);
                lemma_text_lt_transitive(c[0], b[0], c[0]);
            }
        }
    }
}

pub proof fn lemma_labels_lt_total(a: Seq<Seq<char>>, b: Seq<Seq<char>>)
    requires
        a != b,
    ensures
        labels_lt(a, b) || labels_lt(b, a),
    decreases a.len(),
{
    if a.len() == 0 && b.len() == 0 {
        assert(a =~= b);
    }
    if a.len() > 0 && b.len() > 0 {
        if a[0] == b[0] {
            if a.drop_first() == b.drop_first() {
                assert(a =~= seq![a[0]] + a.drop_first());
                assert(b =~= seq![b[0]] + b.drop_first());
                assert(a == b);
            } else {
                lemma_labels_lt_total(a.drop_first(), b.drop_first());
            }
        } else {
            lemma_text_lt_total(a[0], b[0]);
        }
    }
}

/// How two label values or tuples compare.
#[derive(Debug, Clone, Copy, PartialEq, Eq, Structural)]
pub enum LabelOrder {
    Less,
    Same,
    Greater,
}

pub(crate) fn text_order(a: &str, b: &str) -> (r: LabelOrder)
    ensures
        r == LabelOrder::Less <==> text_lt(a@, b@),
        r == LabelOrder::Same <==> a@ == b@,
        r == LabelOrder::Greater <==> text_lt(b@, a@),
{
    let av = chars_of(a);
    let bv = chars_of(b);
    let mut i: usize = 0;
    assert(a@.skip(0) =~= a@);
    assert(b@.skip(0) =~= b@);
    while i < av.len() && i < bv.len() && av[i] == bv[i]
        invariant
            i <= av.len(),
            i <= bv.len(),
            av@ == a@,
            bv@ == b@,
            av@.take(i as int) == bv@.take(i as int),
            text_lt(a@, b@) == text_lt(a@.skip(i as int), b@.skip(i as int)),
            text_lt(b@, a@) == text_lt(b@.skip(i as int), a@.skip(i as int)),
        decreases av.len() - i,
    {
        assert(a@.skip(i as int).drop_first() =~= a@.skip(i + 1));
        assert(b@.skip(i as int).drop_first() =~= b@.skip(i + 1));
        assert(av@.take(i + 1) =~= av@.take(i as int).push(av@[i as int]));
        assert(bv@.take(i + 1) =~= bv@.take(i as int).push(bv@[i as int]));
        i = i + 1;
    }
    proof {
        lemma_text_lt_irreflexive(a@);
    }
    if i == av.len() && i == bv.len() {
        assert(av@ =~= av@.take(i as int));
        assert(bv@ =~= bv@.take(i as int));
        LabelOrder::Same
    } else if i == av.len() {
        assert(a@.skip(i as int).len() == 0);
        assert(a@ != b@);
        LabelOrder::Less
    } else if i == bv.len() {
        assert(b@.skip(i as int).len() == 0);
        assert(a@ != b@);
        LabelOrder::Greater
    } else {
        assert(a@.skip(i as int)[0] == av@[i as int]);
        assert(b@.skip(i as int)[0] == bv@[i as int]);
        assert(a@ != b@) by {
            if a@ == b@ {
                assert(av@[i as int] == bv@[i as int]);
            }
        }
        if av[i] < bv[i] {
            LabelOrder::Less
        } else {
            LabelOrder::Greater
        }
    }
}

fn labels_order(a: &Vec<&'static str>, b: &Vec<&'static str>) -> (r: LabelOrder)
    ensures
        r == LabelOrder::Less <==> labels_lt(label_texts(a@), label_texts(b@)),
        r == LabelOrder::Same <==> label_texts(a@) == label_texts(b@),
        r == LabelOrder::Greater <==> labels_lt(label_texts(b@), label_texts(a@)),
{
    let ghost av = label_texts(a@);
    let ghost bv = label_texts(b@);
    let mut i: usize = 0;
    assert(av.skip(0) =~= av);
    assert(bv.skip(0) =~= bv);
    proof {
        lemma_labels_lt_irreflexive(av);
    }
    while i < a.len() && i < b.len()
        invariant
            i <= a@.len(),
            i <= b@.len(),
            av == label_texts(a@),
            bv == label_texts(b@),
            av.take(i as int) == bv.take(i as int),
            labels_lt(av, bv) == labels_lt(av.skip(i as int), bv.skip(i as int)),
            labels_lt(bv, av) == labels_lt(bv.skip(i as int), av.skip(i as int)),
            !labels_lt(av, av),
        decreases a@.len() - i,
    {
        let o = text_order(a[i], b[i]);
        assert(av.skip(i as int)[0] == a@[i as int]@);
        assert(bv.skip(i as int)[0] == b@[i as int]@);
        match o {
            LabelOrder::Same => {},
            _ => {
                assert(av != bv) by {
                    if av == bv {
                        assert(av[i as int] == bv[i as int]);
                    }
                }
                proof {
                    lemma_text_lt_irreflexive(a@[i as int]@);
                }
                return o;
            },
        }
        assert(av.skip(i as int).drop_first() =~= av.skip(i + 1));
        assert(bv.skip(i as int).drop_first() =~= bv.skip(i + 1));
        assert(av.take(i + 1) =~= av.take(i as int).push(av[i as int]));
        assert(bv.take(i + 1) =~= bv.take(i as int).push(bv[i as int]));
        i = i + 1;
    }
    if i == a.len() && i == b.len() {
        assert(av =~= av.take(i as int));
        assert(bv =~= bv.take(i as int));
        LabelOrder::Same
    } else if i == a.len() {
        assert(av.skip(i as int).len() == 0);
        assert(av.len() != bv.len());
        LabelOrder::Less
    } else {
        assert(bv.skip(i as int).len() == 0);
        assert(av.len() != bv.len());
        LabelOrder::Greater
    }
}

// ----- Counter families --------------------------------------------------------

/// The texts of a tuple of label values.
pub open spec fn label_texts(labels: Seq<&'static str>) -> Seq<Seq<char>> {
    labels.map_values(|l: &'static str| l@)
}

/// One counter of a metric family: its label values and its count.
#[derive(Debug, Clone)]
pub struct Counter {
    pub labels: Vec<&'static str>,
    pub count: u64,
}

pub open spec fn key_of(c: Counter) -> Seq<Seq<char>> {
    label_texts(c.labels@)
}

/// Counters in strictly increasing label order: at most one per tuple.
pub open spec fn sorted_counters(s: Seq<Counter>) -> bool {
    forall|i: int, j: int| 0 <= i < j < s.len() ==> labels_lt(key_of(s[i]), key_of(s[j]))
}

/// The count recorded for a label tuple, if any.
pub open spec fn lookup(s: Seq<Counter>, key: Seq<Seq<char>>) -> Option<u64> {
    if exists|i: int| 0 <= i < s.len() && key_of(s[i]) == key {
        Some(s[choose|i: int| 0 <= i < s.len() && key_of(s[i]) == key].count)
    } else {
        None
    }
}

proof fn lemma_lookup_at(s: Seq<Counter>, i: int)
    requires
        sorted_counters(s),
        0 <= i < s.len(),
    ensures
        lookup(s, key_of(s[i])) == Some(s[i].count),
{
    let key = key_of(s[i]);
    let j = choose|j: int| 0 <= j < s.len() && key_of(s[j]) == key;
    if j != i {
        lemma_labels_lt_irreflexive(key);
        if j < i {
            assert(labels_lt(key_of(s[j]), key_of(s[i])));
        } else {
            assert(labels_lt(key_of(s[i]), key_of(s[j])));
        }
    }
}

/// A counter family after one increment of `key`: the count wraps around
/// at `u64::MAX` like a release-mode `+= 1`.
pub open spec fn incremented(old: Option<u64>) -> u64 {
    match old {
        Some(c) => if c == u64::MAX {
            0
        } else {
            (c + 1) as u64
        },
        None => 1,
    }
}

/// A family of counters kept in label order, so that rendering lists them
/// in the order of their labels.
#[derive(Debug, Clone)]
pub struct CounterFamily {
    entries: Vec<Counter>,
    arity: usize,
}

impl CounterFamily {
    pub closed spec fn counters(&self) -> Seq<Counter> {
        self.entries@
    }

    /// How many labels each counter of the family carries.
    pub closed spec fn arity(&self) -> usize {
        self.arity
    }

    pub open spec fn wf(&self) -> bool {
        &&& sorted_counters(self.counters())
        &&& forall|i: int| 0 <= i < self.counters().len() ==> #[trigger] self.counters()[i].labels@.len()
            == self.arity()
    }

    pub fn new(arity: usize) -> (f: Self)
        ensures
            f.counters().len() == 0,
            f.arity() == arity,
            f.wf(),
    {
        CounterFamily { entries: Vec::new(), arity }
    }

    /// Counts one more event for the label tuple `labels`; every other
    /// tuple keeps its count and the family stays in label order.
    pub fn increment(&mut self, labels: Vec<&'static str>)
        requires
            old(self).wf(),
            labels@.len() == old(self).arity(),
        ensures
            final(self).wf(),
            final(self).arity() == old(self).arity(),
            lookup(final(self).counters(), label_texts(labels@)) == Some(
                incremented(lookup(old(self).counters(), label_texts(labels@))),
            ),
            forall|k: Seq<Seq<char>>|
                k != label_texts(labels@) ==> #[trigger] lookup(final(self).counters(), k) == lookup(
                    old(self).counters(),
                    k,
                ),
    {
        let ghost key = label_texts(labels@);
        let ghost s = self.entries@;
        let mut i: usize = 0;
        let mut found = false;
        loop
            invariant_except_break
                i <= s.len(),
                forall|j: int| 0 <= j < i ==> labels_lt(#[trigger] key_of(s[j]), key),
                !found,
            invariant
                self.entries@ == s,
                sorted_counters(s),
                key == label_texts(labels@),
                self.arity == old(self).arity(),
            ensures
                i <= s.len(),
                forall|j: int| 0 <= j < i ==> labels_lt(#[trigger] key_of(s[j]), key),
                found ==> i < s.len() && key_of(s[i as int]) == key,
                !found ==> i == s.len() || labels_lt(key, key_of(s[i as int])),
            decreases s.len() - i,
        {
            if i >= self.entries.len() {
                break;
            }
            match labels_order(&self.entries[i].labels, &labels) {
                LabelOrder::Less => {
                    assert(labels_lt(key_of(s[i as int]), key));
                    i = i + 1;
                },
                LabelOrder::Same => {
                    found = true;
                    break;
                },
                LabelOrder::Greater => {
                    break;
                },
            }
        }
        proof {
            lemma_labels_lt_irreflexive(key);
        }
        if found {
            let old_count = self.entries[i].count;
            proof {
                lemma_lookup_at(s, i as int);
            }
            let new_count = old_count.wrapping_add(1);
            self.entries[i].count = new_count;
            proof {
                let t = self.entries@;
                assert(t =~= s.update(i as int, Counter { labels: s[i as int].labels, count: new_count }));
                assert forall|j: int| 0 <= j < t.len() implies #[trigger] t[j].labels@.len() == self.arity by {
                    assert(t[j].labels == s[j].labels);
                }
                assert forall|a: int, b: int| 0 <= a < b < t.len() implies labels_lt(
                    key_of(t[a]),
                    key_of(t[b]),
                ) by {
                    assert(key_of(t[a]) == key_of(s[a]));
                    assert(key_of(t[b]) == key_of(s[b]));
                }
                lemma_lookup_at(t, i as int);
                assert forall|k: Seq<Seq<char>>| k != key implies #[trigger] lookup(t, k) == lookup(
                    s,
                    k,
                ) by {
                    if exists|j: int| 0 <= j < s.len() && key_of(s[j]) == k {
                        let j = choose|j: int| 0 <= j < s.len() && key_of(s[j]) == k;
                        lemma_lookup_at(s, j);
                        assert(key_of(t[j]) == k);
                        lemma_lookup_at(t, j);
                    } else {
                        assert forall|j: int| 0 <= j < t.len() implies key_of(t[j]) != k by {
                            assert(key_of(t[j]) == key_of(s[j]));
                        }
                    }
                }
            }
        } else {
            let ghost before = self.entries@;
            self.entries.insert(i, Counter { labels, count: 1 });
            proof {
                let t = self.entries@;
                let c = Counter { labels, count: 1 };
                assert(t =~= s.insert(i as int, c));
                assert forall|j: int| 0 <= j < t.len() implies #[trigger] t[j].labels@.len() == self.arity by {
                    if j < i {
                        assert(t[j] == s[j]);
                    } else if j > i {
                        assert(t[j] == s[j - 1]);
                    }
                }
                assert forall|j: int| i < j < t.len() implies labels_lt(key, #[trigger] key_of(t[j])) by {
                    assert(t[j] == s[j - 1]);
                    if j - 1 > i {
                        assert(labels_lt(key_of(s[i as int]), key_of(s[j - 1])));
                        lemma_labels_lt_transitive(key, key_of(s[i as int]), key_of(s[j - 1]));
                    }
                }
                assert forall|a: int, b: int| 0 <= a < b < t.len() implies labels_lt(
                    key_of(t[a]),
                    key_of(t[b]),
                ) by {
                    if a < i && b < i {
                        assert(t[a] == s[a] && t[b] == s[b]);
                    } else if a < i && b == i {
                        assert(t[a] == s[a]);
                    } else if a < i && b > i {
                        assert(t[a] == s[a]);
                        assert(labels_lt(key_of(s[a]), key));
                        assert(labels_lt(key, key_of(t[b])));
                        lemma_labels_lt_transitive(key_of(s[a]), key, key_of(t[b]));
                    } else if a == i {
                    } else {
                        assert(t[a] == s[a - 1] && t[b] == s[b - 1]);
                    }
                }
                lemma_lookup_at(t, i as int);
                assert forall|k: Seq<Seq<char>>| k != key implies #[trigger] lookup(t, k) == lookup(
                    s,
                    k,
                ) by {
                    if exists|j: int| 0 <= j < s.len() && key_of(s[j]) == k {
                        let j = choose|j: int| 0 <= j < s.len() && key_of(s[j]) == k;
                        lemma_lookup_at(s, j);
                        let jt = if j < i {
                            j
                        } else {
                            j + 1
                        };
                        assert(t[jt] == s[j]);
                        lemma_lookup_at(t, jt);
                    } else {
                        assert forall|j: int| 0 <= j < t.len() implies key_of(t[j]) != k by {
                            if j < i {
                                assert(t[j] == s[j]);
                            } else if j > i {
                                assert(t[j] == s[j - 1]);
                            }
                        }
                    }
                }
                assert(!exists|j: int| 0 <= j < s.len() && key_of(s[j]) == key) by {
                    if exists|j: int| 0 <= j < s.len() && key_of(s[j]) == key {
                        let j = choose|j: int| 0 <= j < s.len() && key_of(s[j]) == key;
                        if j < i {
                            assert(labels_lt(key_of(s[j]), key));
                        } else if j == i {
                            assert(labels_lt(key, key_of(s[i as int])));
                        } else {
                            assert(labels_lt(key_of(s[i as int]), key_of(s[j])));
                            lemma_labels_lt_transitive(key, key_of(s[i as int]), key_of(s[j]));
                        }
                    }
                }
            }
        }
    }
}

// ----- Exposition text -----------------------------------------------------------

/// `name="value"` pairs of the first `k` labels, joined by commas.
pub open spec fn label_pairs(names: Seq<Seq<char>>, values: Seq<Seq<char>>, k: nat) -> Seq<char>
    decreases k,
{
    if k == 0 {
        seq![]
    } else if k == 1 {
        names[0] + "=\""@ + values[0] + "\""@
    } else {
        label_pairs(names, values, (k - 1) as nat) + ","@ + names[k - 1] + "=\""@ + values[k - 1]
            + "\""@
    }
}

/// One exposition line of a counter: `metric{name="value",...} count`.
pub open spec fn counter_line(metric: Seq<char>, names: Seq<Seq<char>>, c: Counter) -> Seq<char> {
    metric + "{"@ + label_pairs(names, key_of(c), key_of(c).len()) + "} "@ + decimal(c.count as nat)
        + "\n"@
}

/// The lines of the first `k` counters.
pub open spec fn family_text(metric: Seq<char>, names: Seq<Seq<char>>, cs: Seq<Counter>, k: nat) -> Seq<
    char,
>
    decreases k,
{
    if k == 0 {
        seq![]
    } else {
        family_text(metric, names, cs, (k - 1) as nat) + counter_line(metric, names, cs[k - 1])
    }
}

fn push_counter_line(out: &mut String, metric: &str, names: &Vec<&'static str>, c: &Counter)
    requires
        c.labels@.len() <= names@.len(),
    ensures
        final(out)@ == old(out)@ + counter_line(metric@, label_texts(names@), *c),
{
    push_str(out, metric);
    push_str(out, "{");
    let ghost start = out@;
    let ghost nv = label_texts(names@);
    let ghost vv = key_of(*c);
    let mut i: usize = 0;
    while i < c.labels.len()
        invariant
            i <= c.labels@.len(),
            c.labels@.len() <= names@.len(),
            nv == label_texts(names@),
            vv == key_of(*c),
            out@ == start + label_pairs(nv, vv, i as nat),
        decreases c.labels@.len() - i,
    {
        if i > 0 {
            push_str(out, ",");
        }
        push_str(out, names[i]);
        push_str(out, "=\"");
        push_str(out, c.labels[i]);
        push_str(out, "\"");
        proof {
            assert(nv[i as int] == names@[i as int]@);
            assert(vv[i as int] == c.labels@[i as int]@);
        }
        i = i + 1;
    }
    push_str(out, "} ");
    push_decimal(out, c.count);
    push_str(out, "\n");
}

impl CounterFamily {
    /// Appends the exposition lines of the family, in label order.
    pub fn render(&self, out: &mut String, metric: &str, names: &Vec<&'static str>)
        requires
            self.wf(),
            names@.len() == self.arity(),
        ensures
            final(out)@ == old(out)@ + family_text(
                metric@,
                label_texts(names@),
                self.counters(),
                self.counters().len(),
            ),
    {
        let ghost start = out@;
        let mut i: usize = 0;
        while i < self.entries.len()
            invariant
                self.wf(),
                names@.len() == self.arity(),
                i <= self.counters().len(),
                out@ == start + family_text(metric@, label_texts(names@), self.counters(), i as nat),
            decreases self.counters().len() - i,
        {
            assert(self.counters()[i as int].labels@.len() == self.arity());
            push_counter_line(out, metric, names, &self.entries[i]);
            i = i + 1;
        }
    }
}

/// The number of histogram buckets (upper bounds 0.005 s to 10 s).
pub const DURATION_BUCKETS: usize = 11;

/// Sum of the first `k` bucket counts, wrapping at `u64::MAX` like a
/// release-mode `+=`.
pub open spec fn cumulative(b: Seq<u64>, k: nat) -> u64
    decreases k,
{
    if k == 0 {
        0
    } else {
        vstd::wrapping::u64_specs::wrapping_add(cumulative(b, (k - 1) as nat), b[k - 1])
    }
}

pub open spec fn label_at(k: int) -> Seq<char> {
    DURATION_BUCKET_LABELS@[k]@
}

/// The `_bucket` lines of the first `k` histogram buckets, cumulative.
pub open spec fn bucket_lines(b: Seq<u64>, k: nat) -> Seq<char>
    decreases k,
{
    if k == 0 {
        seq![]
    } else {
        bucket_lines(b, (k - 1) as nat) + "vikunja_mcp_http_request_duration_seconds_bucket{le=\""@
            + label_at(k - 1) + "\"} "@ + decimal(cumulative(b, k) as nat) + "\n"@
    }
}

pub open spec fn http_help() -> Seq<char> {
    "# HELP vikunja_mcp_http_requests_total HTTP requests handled, by route, method and status class.\n# TYPE vikunja_mcp_http_requests_total counter\n"@
}

pub open spec fn duration_help() -> Seq<char> {
    "# HELP vikunja_mcp_http_request_duration_seconds HTTP request duration in seconds.\n# TYPE vikunja_mcp_http_request_duration_seconds histogram\n"@
}

pub open spec fn vikunja_help() -> Seq<char> {
    "# HELP vikunja_mcp_vikunja_requests_total Requests sent to the Vikunja API, by endpoint category and outcome.\n# TYPE vikunja_mcp_vikunja_requests_total counter\n"@
}

pub open spec fn retries_help() -> Seq<char> {
    "# HELP vikunja_mcp_vikunja_retries_total Idempotent Vikunja API requests retried once, by endpoint category.\n# TYPE vikunja_mcp_vikunja_retries_total counter\n"@
}

// ----- The duration histogram -------------------------------------------------------

/// Request-duration histogram: per-bucket (non-cumulative) observation
/// counts, rendered cumulative, and the observations above the largest
/// bound. The running sum of the observed seconds is kept by the caller.
#[derive(Debug, Clone)]
pub struct DurationHistogram {
    buckets: Vec<u64>,
    overflow: u64,
    count: u64,
}

impl DurationHistogram {
    pub closed spec fn buckets(&self) -> Seq<u64> {
        self.buckets@
    }

    pub closed spec fn overflow(&self) -> u64 {
        self.overflow
    }

    pub closed spec fn observations(&self) -> u64 {
        self.count
    }

    pub open spec fn wf(&self) -> bool {
        self.buckets().len() == DURATION_BUCKETS
    }

    pub fn new() -> (h: Self)
        ensures
            h.wf(),
            h.buckets() == Seq::new(11, |i: int| 0u64),
            h.overflow() == 0,
            h.observations() == 0,
    {
        let mut buckets: Vec<u64> = Vec::new();
        let mut i: usize = 0;
        while i < DURATION_BUCKETS
            invariant
                i <= DURATION_BUCKETS,
                buckets@ == Seq::new(i as nat, |j: int| 0u64),
            decreases DURATION_BUCKETS - i,
        {
            buckets.push(0);
            i = i + 1;
        }
        DurationHistogram { buckets, overflow: 0, count: 0 }
    }

    /// Counts one observation in bucket `bucket` (`None` above the largest
    /// bound).
    pub fn observe(&mut self, bucket: Option<usize>)
        requires
            old(self).wf(),
            bucket matches Some(b) ==> b < DURATION_BUCKETS,
        ensures
            final(self).wf(),
            final(self).observations() == vstd::wrapping::u64_specs::wrapping_add(
                old(self).observations(),
                1,
            ),
            match bucket {
                Some(b) => final(self).buckets() == old(self).buckets().update(
                    b as int,
                    vstd::wrapping::u64_specs::wrapping_add(old(self).buckets()[b as int], 1),
                ) && final(self).overflow() == old(self).overflow(),
                None => final(self).buckets() == old(self).buckets() && final(self).overflow()
                    == vstd::wrapping::u64_specs::wrapping_add(old(self).overflow(), 1),
            },
    {
        match bucket {
            Some(b) => {
                let v = self.buckets[b].wrapping_add(1);
                self.buckets.set(b, v);
            },
            None => {
                self.overflow = self.overflow.wrapping_add(1);
            },
        }
        self.count = self.count.wrapping_add(1);
    }

    /// Appends the `_bucket`, `_sum` and `_count` lines.
    pub fn render(&self, out: &mut String, duration_sum: &str)
        requires
            self.wf(),
        ensures
            final(out)@ == old(out)@ + bucket_lines(self.buckets(), 11)
                + "vikunja_mcp_http_request_duration_seconds_bucket{le=\"+Inf\"} "@ + decimal(
                self.observations() as nat,
            ) + "\n"@ + "vikunja_mcp_http_request_duration_seconds_sum "@ + duration_sum@ + "\n"@
                + "vikunja_mcp_http_request_duration_seconds_count "@ + decimal(
                self.observations() as nat,
            ) + "\n"@,
    {
        let ghost start = out@;
        let mut total: u64 = 0;
        let mut i: usize = 0;
        while i < DURATION_BUCKETS
            invariant
                i <= DURATION_BUCKETS,
                self.buckets@.len() == DURATION_BUCKETS,
                total == cumulative(self.buckets@, i as nat),
                out@ == start + bucket_lines(self.buckets@, i as nat),
            decreases DURATION_BUCKETS - i,
        {
            total = total.wrapping_add(self.buckets[i]);
            push_str(out, "vikunja_mcp_http_request_duration_seconds_bucket{le=\"");
            push_str(out, DURATION_BUCKET_LABELS[i]);
            push_str(out, "\"} ");
            push_decimal(out, total);
            push_str(out, "\n");
            i = i + 1;
        }
        push_str(out, "vikunja_mcp_http_request_duration_seconds_bucket{le=\"+Inf\"} ");
        push_decimal(out, self.count);
        push_str(out, "\n");
        push_str(out, "vikunja_mcp_http_request_duration_seconds_sum ");
        push_str(out, duration_sum);
        push_str(out, "\n");
        push_str(out, "vikunja_mcp_http_request_duration_seconds_count ");
        push_decimal(out, self.count);
        push_str(out, "\n");
    }
}

// ----- The registry ---------------------------------------------------------------

/// Counter registry for one server process: HTTP requests by route, method
/// and status class; a request-duration histogram (the running sum of the
/// observed seconds is kept by the caller); Vikunja requests by endpoint
/// category and outcome; and retries by endpoint category.
///
/// All labels are `&'static str` values: callers cannot inject
/// request-derived strings.
pub struct MetricsRegistry {
    http_requests: CounterFamily,
    http_duration: DurationHistogram,
    vikunja_requests: CounterFamily,
    vikunja_retries: CounterFamily,
}

/// The Prometheus text exposition of a registry, `sum` being the running
/// sum of the observed durations as float text and `count` the number of
/// observations shown in the `+Inf` bucket and `_count`.
pub open spec fn exposition_with_count(m: MetricsRegistry, sum: Seq<char>, count: nat) -> Seq<
    char,
> {
    http_help() + family_text(
        "vikunja_mcp_http_requests_total"@,
        seq!["route"@, "method"@, "status"@],
        m.http(),
        m.http().len(),
    ) + duration_help() + bucket_lines(m.buckets(), 11)
        + "vikunja_mcp_http_request_duration_seconds_bucket{le=\"+Inf\"} "@ + decimal(
        count,
    ) + "\n"@ + "vikunja_mcp_http_request_duration_seconds_sum "@ + sum + "\n"@
        + "vikunja_mcp_http_request_duration_seconds_count "@ + decimal(
        count,
    ) + "\n"@ + vikunja_help() + family_text(
        "vikunja_mcp_vikunja_requests_total"@,
        seq!["endpoint"@, "outcome"@],
        m.vikunja(),
        m.vikunja().len(),
    ) + retries_help() + family_text(
        "vikunja_mcp_vikunja_retries_total"@,
        seq!["endpoint"@],
        m.retries(),
        m.retries().len(),
    )
}

/// The Prometheus text exposition of a registry.
pub open spec fn exposition(m: MetricsRegistry, sum: Seq<char>) -> Seq<char> {
    exposition_with_count(m, sum, m.observations() as nat)
}

impl MetricsRegistry {
    #[verifier::type_invariant]
    spec fn well_formed(self) -> bool {
        &&& self.http_requests.wf()
        &&& self.http_requests.arity() == 3
        &&& self.vikunja_requests.wf()
        &&& self.vikunja_requests.arity() == 2
        &&& self.vikunja_retries.wf()
        &&& self.vikunja_retries.arity() == 1
        &&& self.http_duration.wf()
    }

    pub closed spec fn http(&self) -> Seq<Counter> {
        self.http_requests.counters()
    }

    pub closed spec fn vikunja(&self) -> Seq<Counter> {
        self.vikunja_requests.counters()
    }

    pub closed spec fn retries(&self) -> Seq<Counter> {
        self.vikunja_retries.counters()
    }

    /// Per-bucket (non-cumulative) observation counts.
    pub closed spec fn buckets(&self) -> Seq<u64> {
        self.http_duration.buckets()
    }

    /// Observations above the largest bucket.
    pub closed spec fn overflow(&self) -> u64 {
        self.http_duration.overflow()
    }

    /// Number of observations.
    pub closed spec fn observations(&self) -> u64 {
        self.http_duration.observations()
    }

    pub fn new() -> (m: Self)
        ensures
            is_fresh(m),
    {
        MetricsRegistry {
            http_requests: CounterFamily::new(3),
            http_duration: DurationHistogram::new(),
            vikunja_requests: CounterFamily::new(2),
            vikunja_retries: CounterFamily::new(1),
        }
    }

    /// Records one handled HTTP request: its counter and its duration,
    /// given as the index of the first bucket whose bound it does not exceed
    /// (`None` above the largest bound).
    pub fn record_http_request(
        &mut self,
        route: &'static str,
        method: &'static str,
        status: u16,
        bucket: Option<usize>,
    )
        requires
            bucket matches Some(b) ==> b < DURATION_BUCKETS,
        ensures
            records(
                *old(self),
                *final(self),
                Recording::Http { route: route@, method: method@, status, bucket },
            ),
    {
        proof {
            use_type_invariant(&*self);
        }
        let labels = vec![route, method, status_class_label(status)];
        assert(label_texts(labels@) =~= seq![route@, method@, status_class_of(status)]);
        let mut family = CounterFamily::new(3);
        std::mem::swap(&mut family, &mut self.http_requests);
        family.increment(labels);
        std::mem::swap(&mut family, &mut self.http_requests);
        let mut histogram = DurationHistogram::new();
        std::mem::swap(&mut histogram, &mut self.http_duration);
        histogram.observe(bucket);
        std::mem::swap(&mut histogram, &mut self.http_duration);
    }

    /// Records the outcome of one Vikunja API request: `endpoint` is a
    /// fixed endpoint category like `tasks.get`; `outcome` is `ok` or an
    /// error category.
    pub fn record_vikunja_request(&mut self, endpoint: &'static str, outcome: &'static str)
        ensures
            records(
                *old(self),
                *final(self),
                Recording::Vikunja { endpoint: endpoint@, outcome: outcome@ },
            ),
    {
        proof {
            use_type_invariant(&*self);
        }
        let labels = vec![endpoint, outcome];
        assert(label_texts(labels@) =~= seq![endpoint@, outcome@]);
        let mut family = CounterFamily::new(2);
        std::mem::swap(&mut family, &mut self.vikunja_requests);
        family.increment(labels);
        std::mem::swap(&mut family, &mut self.vikunja_requests);
    }

    /// Records one retry of an idempotent Vikunja request.
    pub fn record_vikunja_retry(&mut self, endpoint: &'static str)
        ensures
            records(*old(self), *final(self), Recording::Retry { endpoint: endpoint@ }),
    {
        proof {
            use_type_invariant(&*self);
        }
        let labels = vec![endpoint];
        assert(label_texts(labels@) =~= seq![endpoint@]);
        let mut family = CounterFamily::new(1);
        std::mem::swap(&mut family, &mut self.vikunja_retries);
        family.increment(labels);
        std::mem::swap(&mut family, &mut self.vikunja_retries);
    }

    /// Renders the registry in the Prometheus text exposition format
    /// (`text/plain; version=0.0.4`). `duration_sum` is the running sum of
    /// the observed durations in seconds, as float text (`0.0`, never `0`).
    pub fn render(&self, duration_sum: &str) -> (r: String)
        ensures
            r@ == exposition(*self, duration_sum@),
    {
        proof {
            use_type_invariant(self);
        }
        let mut out = String::new();
        push_str(
            &mut out,
            "# HELP vikunja_mcp_http_requests_total HTTP requests handled, by route, method and status class.\n# TYPE vikunja_mcp_http_requests_total counter\n",
        );
        let http_names = vec!["route", "method", "status"];
        assert(label_texts(http_names@) =~= seq!["route"@, "method"@, "status"@]);
        self.http_requests.render(&mut out, "vikunja_mcp_http_requests_total", &http_names);
        push_str(
            &mut out,
            "# HELP vikunja_mcp_http_request_duration_seconds HTTP request duration in seconds.\n# TYPE vikunja_mcp_http_request_duration_seconds histogram\n",
        );
        self.http_duration.render(&mut out, duration_sum);
        push_str(
            &mut out,
            "# HELP vikunja_mcp_vikunja_requests_total Requests sent to the Vikunja API, by endpoint category and outcome.\n# TYPE vikunja_mcp_vikunja_requests_total counter\n",
        );
        let vikunja_names = vec!["endpoint", "outcome"];
        assert(label_texts(vikunja_names@) =~= seq!["endpoint"@, "outcome"@]);
        self.vikunja_requests.render(&mut out, "vikunja_mcp_vikunja_requests_total", &vikunja_names);
        push_str(
            &mut out,
            "# HELP vikunja_mcp_vikunja_retries_total Idempotent Vikunja API requests retried once, by endpoint category.\n# TYPE vikunja_mcp_vikunja_retries_total counter\n",
        );
        let retry_names = vec!["endpoint"];
        assert(label_texts(retry_names@) =~= seq!["endpoint"@]);
        self.vikunja_retries.render(&mut out, "vikunja_mcp_vikunja_retries_total", &retry_names);
        out
    }
}

// ----- Counting over a sequence of recordings ----------------------------------

/// One recording made on a registry, with the label texts it was given.
pub enum Recording {
    Http { route: Seq<char>, method: Seq<char>, status: u16, bucket: Option<usize> },
    Vikunja { endpoint: Seq<char>, outcome: Seq<char> },
    Retry { endpoint: Seq<char> },
}

/// `after` counts one more event for the label tuple `k` than `before`, and
/// the same for every other tuple.
pub open spec fn counted(before: Seq<Counter>, after: Seq<Counter>, k: Seq<Seq<char>>) -> bool {
    &&& lookup(after, k) == Some(incremented(lookup(before, k)))
    &&& forall|j: Seq<Seq<char>>| j != k ==> #[trigger] lookup(after, j) == lookup(before, j)
}

/// `after` holds one more duration observation than `before`, in bucket
/// `bucket`, one of the histogram's buckets (`None` above the largest
/// bound).
pub open spec fn observed(before: MetricsRegistry, after: MetricsRegistry, bucket: Option<usize>) -> bool {
    &&& after.observations() == vstd::wrapping::u64_specs::wrapping_add(before.observations(), 1)
    &&& match bucket {
        Some(b) => b < DURATION_BUCKETS && after.buckets() == before.buckets().update(
            b as int,
            vstd::wrapping::u64_specs::wrapping_add(before.buckets()[b as int], 1),
        ) && after.overflow() == before.overflow(),
        None => after.buckets() == before.buckets() && after.overflow()
            == vstd::wrapping::u64_specs::wrapping_add(before.overflow(), 1),
    }
}

/// `after` holds the same duration observations as `before`.
pub open spec fn untimed(before: MetricsRegistry, after: MetricsRegistry) -> bool {
    &&& after.buckets() == before.buckets()
    &&& after.overflow() == before.overflow()
    &&& after.observations() == before.observations()
}

/// `after` is `before` with the recording `r` made: its own counter and, for
/// an HTTP request, its duration; nothing else changes.
pub open spec fn records(before: MetricsRegistry, after: MetricsRegistry, r: Recording) -> bool {
    match r {
        Recording::Http { route, method, status, bucket } => {
            &&& counted(before.http(), after.http(), seq![route, method, status_class_of(status)])
            &&& after.vikunja() == before.vikunja()
            &&& after.retries() == before.retries()
            &&& observed(before, after, bucket)
        },
        Recording::Vikunja { endpoint, outcome } => {
            &&& counted(before.vikunja(), after.vikunja(), seq![endpoint, outcome])
            &&& after.http() == before.http()
            &&& after.retries() == before.retries()
            &&& untimed(before, after)
        },
        Recording::Retry { endpoint } => {
            &&& counted(before.retries(), after.retries(), seq![endpoint])
            &&& after.http() == before.http()
            &&& after.vikunja() == before.vikunja()
            &&& untimed(before, after)
        },
    }
}

/// A registry with nothing recorded.
pub open spec fn is_fresh(m: MetricsRegistry) -> bool {
    &&& m.http().len() == 0
    &&& m.vikunja().len() == 0
    &&& m.retries().len() == 0
    &&& m.buckets() == Seq::new(11, |i: int| 0u64)
    &&& m.overflow() == 0
    &&& m.observations() == 0
}

/// The HTTP counter tuple of a recording, if it is an HTTP request.
pub open spec fn http_key(r: Recording) -> Option<Seq<Seq<char>>> {
    match r {
        Recording::Http { route, method, status, .. } => Some(
            seq![route, method, status_class_of(status)],
        ),
        _ => None,
    }
}

/// The Vikunja request counter tuple of a recording, if it is one.
pub open spec fn vikunja_key(r: Recording) -> Option<Seq<Seq<char>>> {
    match r {
        Recording::Vikunja { endpoint, outcome } => Some(seq![endpoint, outcome]),
        _ => None,
    }
}

/// The retry counter tuple of a recording, if it is a retry.
pub open spec fn retry_key(r: Recording) -> Option<Seq<Seq<char>>> {
    match r {
        Recording::Retry { endpoint } => Some(seq![endpoint]),
        _ => None,
    }
}

/// How many recordings of `rs` have the tuple `k` under `key`.
pub open spec fn tally(
    rs: Seq<Recording>,
    key: spec_fn(Recording) -> Option<Seq<Seq<char>>>,
    k: Seq<Seq<char>>,
) -> nat
    decreases rs.len(),
{
    if rs.len() == 0 {
        0
    } else {
        tally(rs.drop_last(), key, k) + if key(rs.last()) == Some(k) {
            1nat
        } else {
            0nat
        }
    }
}

/// How many recordings of `rs` are HTTP requests.
pub open spec fn http_total(rs: Seq<Recording>) -> nat
    decreases rs.len(),
{
    if rs.len() == 0 {
        0
    } else {
        http_total(rs.drop_last()) + if rs.last() is Http {
            1nat
        } else {
            0nat
        }
    }
}

/// A counter holding `n`: none for zero.
pub open spec fn as_count(n: nat) -> Option<u64> {
    if n == 0 {
        None
    } else {
        Some(n as u64)
    }
}

/// Sum of the first `k` bucket counts.
pub open spec fn bucket_total(b: Seq<u64>, k: nat) -> int
    decreases k,
{
    if k == 0 {
        0
    } else {
        bucket_total(b, (k - 1) as nat) + b[k - 1]
    }
}

proof fn lemma_bucket_total_update(b: Seq<u64>, i: int, v: u64, k: nat)
    requires
        0 <= i < b.len(),
        k <= b.len(),
    ensures
        bucket_total(b.update(i, v), k) == bucket_total(b, k) + if i < k {
            v - b[i]
        } else {
            0
        },
        i < k ==> b[i] <= bucket_total(b, k),
        bucket_total(b, k) >= 0,
    decreases k,
{
    if k > 0 {
        lemma_bucket_total_update(b, i, v, (k - 1) as nat);
    }
}

proof fn lemma_cumulative_exact(b: Seq<u64>, k: nat)
    requires
        k <= b.len(),
        bucket_total(b, k) <= u64::MAX,
    ensures
        cumulative(b, k) == bucket_total(b, k),
        forall|a: nat| a <= k ==> bucket_total(b, a) <= bucket_total(b, k),
    decreases k,
{
    if k > 0 {
        assert(bucket_total(b, (k - 1) as nat) <= bucket_total(b, k));
        lemma_cumulative_exact(b, (k - 1) as nat);
    }
}

proof fn lemma_tally_step(rs: Seq<Recording>, n: int, key: spec_fn(Recording) -> Option<Seq<Seq<char>>>, k: Seq<Seq<char>>)
    requires
        0 <= n < rs.len(),
    ensures
        tally(rs.take(n + 1), key, k) == tally(rs.take(n), key, k) + if key(rs[n]) == Some(k) {
            1nat
        } else {
            0nat
        },
        http_total(rs.take(n + 1)) == http_total(rs.take(n)) + if rs[n] is Http {
            1nat
        } else {
            0nat
        },
        tally(rs.take(n), key, k) <= n,
        http_total(rs.take(n)) <= n,
    decreases n,
{
    assert(rs.take(n + 1).drop_last() =~= rs.take(n));
    assert(rs.take(n + 1).last() == rs[n]);
    if n > 0 {
        lemma_tally_step(rs, n - 1, key, k);
    } else {
        assert(rs.take(0).len() == 0);
    }
}

proof fn lemma_family_step(
    before: Seq<Counter>,
    after: Seq<Counter>,
    rs: Seq<Recording>,
    p: int,
    key: spec_fn(Recording) -> Option<Seq<Seq<char>>>,
)
    requires
        0 <= p < rs.len(),
        rs.len() < u64::MAX,
        forall|k: Seq<Seq<char>>| #[trigger] lookup(before, k) == as_count(tally(rs.take(p), key, k)),
        match key(rs[p]) {
            Some(k0) => counted(before, after, k0),
            None => after == before,
        },
    ensures
        forall|k: Seq<Seq<char>>| #[trigger] lookup(after, k) == as_count(
            tally(rs.take(p + 1), key, k),
        ),
{
    assert forall|k: Seq<Seq<char>>| #[trigger] lookup(after, k) == as_count(
        tally(rs.take(p + 1), key, k),
    ) by {
        lemma_tally_step(rs, p, key, k);
        assert(lookup(before, k) == as_count(tally(rs.take(p), key, k)));
    }
}

proof fn lemma_buckets_step(before: MetricsRegistry, after: MetricsRegistry, r: Recording, total: nat)
    requires
        records(before, after, r),
        before.buckets().len() == 11,
        before.observations() == total,
        bucket_total(before.buckets(), 11) + before.overflow() == total,
        total + 1 < u64::MAX,
    ensures
        after.buckets().len() == 11,
        after.observations() == total + if r is Http {
            1nat
        } else {
            0nat
        },
        bucket_total(after.buckets(), 11) + after.overflow() == after.observations(),
{
    lemma_bucket_total_update(before.buckets(), 0, before.buckets()[0], 11);
    if let Recording::Http { bucket: Some(b), .. } = r {
        lemma_bucket_total_update(
            before.buckets(),
            b as int,
            vstd::wrapping::u64_specs::wrapping_add(before.buckets()[b as int], 1),
            11,
        );
    }
}

/// The state reached after the first `n` recordings.
proof fn lemma_counts_after(states: Seq<MetricsRegistry>, rs: Seq<Recording>, n: int)
    requires
        states.len() == rs.len() + 1,
        is_fresh(states[0]),
        forall|i: int| 0 <= i < rs.len() ==> records(#[trigger] states[i], states[i + 1], rs[i]),
        rs.len() < u64::MAX,
        0 <= n <= rs.len(),
    ensures
        forall|k: Seq<Seq<char>>| #[trigger] lookup(states[n].http(), k) == as_count(
            tally(rs.take(n), |r: Recording| http_key(r), k),
        ),
        forall|k: Seq<Seq<char>>| #[trigger] lookup(states[n].vikunja(), k) == as_count(
            tally(rs.take(n), |r: Recording| vikunja_key(r), k),
        ),
        forall|k: Seq<Seq<char>>| #[trigger] lookup(states[n].retries(), k) == as_count(
            tally(rs.take(n), |r: Recording| retry_key(r), k),
        ),
        states[n].observations() == http_total(rs.take(n)),
        states[n].buckets().len() == 11,
        bucket_total(states[n].buckets(), 11) + states[n].overflow() == http_total(rs.take(n)),
    decreases n,
{
    let hk = |r: Recording| http_key(r);
    let vk = |r: Recording| vikunja_key(r);
    let rk = |r: Recording| retry_key(r);
    if n == 0 {
        let m = states[0];
        assert(rs.take(0).len() == 0);
        let z = m.buckets();
        assert(bucket_total(z, 11) == 0) by {
            reveal_with_fuel(bucket_total, 12);
        }
    } else {
        let p = n - 1;
        lemma_counts_after(states, rs, p);
        let before = states[p];
        let after = states[n];
        let r = rs[p];
        assert(records(before, after, r));
        lemma_tally_step(rs, p, hk, seq![]);
        lemma_family_step(before.http(), after.http(), rs, p, hk);
        lemma_family_step(before.vikunja(), after.vikunja(), rs, p, vk);
        lemma_family_step(before.retries(), after.retries(), rs, p, rk);
        lemma_buckets_step(before, after, r, http_total(rs.take(p)));
    }
}

/// Counting over any sequence of recordings made on a fresh registry: each
/// label tuple's counter holds the number of recordings with exactly that
/// tuple, and a tuple never recorded has no counter; the observation count
/// is the number of HTTP requests recorded, so the rendered text shows that
/// number in the `+Inf` bucket and `_count`; and the cumulative bucket counts never decrease from one
/// bound to the next and never exceed it.
pub proof fn lemma_recordings_are_counted(states: Seq<MetricsRegistry>, rs: Seq<Recording>)
    requires
        states.len() == rs.len() + 1,
        is_fresh(states[0]),
        forall|i: int| 0 <= i < rs.len() ==> records(#[trigger] states[i], states[i + 1], rs[i]),
        rs.len() < u64::MAX,
    ensures
        forall|k: Seq<Seq<char>>| #[trigger] lookup(states.last().http(), k) == as_count(
            tally(rs, |r: Recording| http_key(r), k),
        ),
        forall|k: Seq<Seq<char>>| #[trigger] lookup(states.last().vikunja(), k) == as_count(
            tally(rs, |r: Recording| vikunja_key(r), k),
        ),
        forall|k: Seq<Seq<char>>| #[trigger] lookup(states.last().retries(), k) == as_count(
            tally(rs, |r: Recording| retry_key(r), k),
        ),
        states.last().observations() == http_total(rs),
        forall|sum: Seq<char>| #[trigger] exposition(states.last(), sum) == exposition_with_count(
            states.last(),
            sum,
            http_total(rs),
        ),
        forall|a: nat, b: nat|
            a <= b <= 11 ==> #[trigger] cumulative(states.last().buckets(), a) <= #[trigger] cumulative(
                states.last().buckets(),
                b,
            ) <= states.last().observations(),
{
    let n = rs.len() as int;
    lemma_counts_after(states, rs, n);
    assert(rs.take(n) =~= rs);
    let m = states.last();
    let bs = m.buckets();
    if n > 0 {
        lemma_tally_step(rs, n - 1, |r: Recording| http_key(r), seq![]);
    }
    lemma_cumulative_exact(bs, 11);
    assert forall|a: nat, b: nat| a <= b <= 11 implies #[trigger] cumulative(bs, a) <= #[trigger] cumulative(
        bs,
        b,
    ) <= m.observations() by {
        lemma_cumulative_exact(bs, b);
        lemma_cumulative_exact(bs, a);
    }
}

} // verus!
