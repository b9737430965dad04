//! Character-level string helpers with specifications: whitespace and
//! trimming, prefixes, decimal numbers, and conversion between `&str`,
//! `String` and character vectors.

use vstd::prelude::*;

use crate::dates::ascii_lower;

verus! {

// ----- Characters ------------------------------------------------------------

/// Unicode `White_Space` characters, the set `char::is_whitespace` and
/// `str::trim` use.
pub open spec fn is_ws(c: char) -> bool {
    let u = c as u32;
    ||| 9 <= u <= 13
    ||| u == 32
    ||| u == 0x85
    ||| u == 0xA0
    ||| u == 0x1680
    ||| 0x2000 <= u <= 0x200A
    ||| u == 0x2028
    ||| u == 0x2029
    ||| u == 0x202F
    ||| u == 0x205F
    ||| u == 0x3000
}

pub fn is_whitespace(c: char) -> (b: bool)
    ensures
        b == is_ws(c),
{
    let u = c as u32;
    (9 <= u && u <= 13) || u == 32 || u == 0x85 || u == 0xA0 || u == 0x1680 || (0x2000 <= u && u
        <= 0x200A) || u == 0x2028 || u == 0x2029 || u == 0x202F || u == 0x205F || u == 0x3000
}

/// ASCII decimal digit.
pub open spec fn is_digit(c: char) -> bool {
    48 <= (c as u32) <= 57
}

pub open spec fn digit_value(c: char) -> nat {
    ((c as u32) - 48) as nat
}

pub open spec fn digit_char(d: nat) -> char {
    ((d % 10) + 48) as char
}

// ----- Trimming --------------------------------------------------------------

pub open spec fn trim_start(s: Seq<char>) -> Seq<char>
    decreases s.len(),
{
    if s.len() > 0 && is_ws(s[0]) {
        trim_start(s.drop_first())
    } else {
        s
    }
}

pub open spec fn trim_end(s: Seq<char>) -> Seq<char>
    decreases s.len(),
{
    if s.len() > 0 && is_ws(s.last()) {
        trim_end(s.drop_last())
    } else {
        s
    }
}

/// What `str::trim` leaves of `s`.
pub open spec fn trim(s: Seq<char>) -> Seq<char> {
    trim_end(trim_start(s))
}

/// Every character is whitespace.
pub open spec fn all_ws(s: Seq<char>) -> bool {
    forall|i: int| 0 <= i < s.len() ==> #[trigger] is_ws(s[i])
}

pub proof fn lemma_trim_start_all_ws(s: Seq<char>)
    ensures
        trim_start(s).len() == 0 <==> all_ws(s),
    decreases s.len(),
{
    if s.len() > 0 {
        let t = s.drop_first();
        lemma_trim_start_all_ws(t);
        if is_ws(s[0]) {
            if all_ws(s) {
                assert forall|i: int| 0 <= i < t.len() implies #[trigger] is_ws(t[i]) by {
                    assert(t[i] == s[i + 1]);
                }
            }
            if all_ws(t) {
                assert forall|i: int| 0 <= i < s.len() implies #[trigger] is_ws(s[i]) by {
                    if i > 0 {
                        assert(s[i] == t[i - 1]);
                    }
                }
            }
        } else {
            assert(!is_ws(s[0]));
        }
    }
}

pub proof fn lemma_trim_end_empty(s: Seq<char>)
    ensures
        s.len() == 0 ==> trim_end(s).len() == 0,
        trim_end(s).len() == 0 ==> all_ws(s),
    decreases s.len(),
{
    if s.len() > 0 && is_ws(s.last()) {
        lemma_trim_end_empty(s.drop_last());
        if trim_end(s).len() == 0 {
            assert forall|i: int| 0 <= i < s.len() implies #[trigger] is_ws(s[i]) by {
                if i < s.len() - 1 {
                    assert(s[i] == s.drop_last()[i]);
                }
            }
        }
    }
}

/// A trimmed sequence is empty exactly when all characters are whitespace.
pub proof fn lemma_trim_empty_iff_all_ws(s: Seq<char>)
    ensures
        trim(s).len() == 0 <==> all_ws(s),
{
    lemma_trim_start_all_ws(s);
    lemma_trim_end_empty(trim_start(s));
    if trim(s).len() == 0 {
        lemma_trim_start_empty_or_starts_nonws(s);
        if trim_start(s).len() > 0 {
            // trim_start(s) starts with a non-whitespace character, which
            // trim_end would have to remove: impossible.
            assert(all_ws(trim_start(s)));
            assert(is_ws(trim_start(s)[0]));
            assert(false);
        }
    } else {
        if all_ws(s) {
            assert(trim_start(s).len() == 0);
            lemma_trim_end_empty(trim_start(s));
        }
    }
}

pub proof fn lemma_trim_start_empty_or_starts_nonws(s: Seq<char>)
    ensures
        trim_start(s).len() == 0 || !is_ws(trim_start(s)[0]),
    decreases s.len(),
{
    if s.len() > 0 && is_ws(s[0]) {
        lemma_trim_start_empty_or_starts_nonws(s.drop_first());
    }
}

proof fn lemma_trim_end_keeps_first(z: Seq<char>)
    ensures
        trim_end(z).len() <= z.len(),
        trim_end(z).len() > 0 ==> trim_end(z)[0] == z[0],
        trim_end(z).len() == 0 || !is_ws(trim_end(z).last()),
    decreases z.len(),
{
    if z.len() > 0 && is_ws(z.last()) {
        lemma_trim_end_keeps_first(z.drop_last());
    }
}

/// Trimming twice trims no more than once.
pub proof fn lemma_trim_idempotent(x: Seq<char>)
    ensures
        trim(trim(x)) == trim(x),
{
    let z = trim_start(x);
    let y = trim_end(z);
    lemma_trim_start_empty_or_starts_nonws(x);
    lemma_trim_end_keeps_first(z);
    assert(trim_start(y) == y);
    assert(trim_end(y) == y);
}

proof fn lemma_trim_start_step(s: Seq<char>, lo: int)
    requires
        0 <= lo < s.len(),
        is_ws(s[lo]),
    ensures
        trim_start(s.subrange(lo, s.len() as int)) == trim_start(
            s.subrange(lo + 1, s.len() as int),
        ),
{
    let t = s.subrange(lo, s.len() as int);
    assert(t.drop_first() =~= s.subrange(lo + 1, s.len() as int));
}

proof fn lemma_trim_end_step(t: Seq<char>, hi: int)
    requires
        0 < hi <= t.len(),
        is_ws(t[hi - 1]),
    ensures
        trim_end(t.subrange(0, hi)) == trim_end(t.subrange(0, hi - 1)),
{
    let u = t.subrange(0, hi);
    assert(u.drop_last() =~= t.subrange(0, hi - 1));
}

/// `str::trim` on a character sequence.
pub fn trim_chars(s: &Vec<char>) -> (r: Vec<char>)
    ensures
        r@ == trim(s@),
{
    let n = s.len();
    let mut lo: usize = 0;
    assert(s@ =~= s@.subrange(0, n as int));
    while lo < n && is_whitespace(s[lo])
        invariant
            n == s.len(),
            lo <= n,
            trim_start(s@) == trim_start(s@.subrange(lo as int, n as int)),
        decreases n - lo,
    {
        proof {
            lemma_trim_start_step(s@, lo as int);
        }
        lo = lo + 1;
    }
    assert(s@ =~= s@.subrange(0, n as int));
    let ghost t = s@.subrange(lo as int, n as int);
    assert(trim_start(t) == t);
    assert(t =~= t.subrange(0, n - lo));
    let mut hi: usize = n;
    while hi > lo && is_whitespace(s[hi - 1])
        invariant
            n == s.len(),
            lo <= hi <= n,
            t == s@.subrange(lo as int, n as int),
            trim_end(t) == trim_end(t.subrange(0, hi - lo)),
        decreases hi,
    {
        proof {
            assert(t[hi - lo - 1] == s@[hi - 1]);
            lemma_trim_end_step(t, hi - lo);
        }
        hi = hi - 1;
    }
    let r = copy_range(s, lo, hi);
    proof {
        assert(r@ =~= t.subrange(0, hi - lo));
        let u = t.subrange(0, hi - lo);
        if u.len() > 0 {
            assert(u.last() == s@[hi - 1]);
        }
        assert(trim_end(u) == u);
    }
    r
}

/// Trimmed characters of a string slice.
pub fn trim_str(s: &str) -> (r: Vec<char>)
    ensures
        r@ == trim(s@),
{
    let v = chars_of(s);
    trim_chars(&v)
}

/// The characters `s[lo..hi]`.
pub fn copy_range(s: &Vec<char>, lo: usize, hi: usize) -> (r: Vec<char>)
    requires
        lo <= hi <= s.len(),
    ensures
        r@ == s@.subrange(lo as int, hi as int),
{
    let mut r: Vec<char> = Vec::new();
    let mut i = lo;
    while i < hi
        invariant
            lo <= i <= hi <= s.len(),
            r@ == s@.subrange(lo as int, i as int),
        decreases hi - i,
    {
        r.push(s[i]);
        i = i + 1;
        assert(r@ =~= s@.subrange(lo as int, i as int));
    }
    r
}

// ----- Conversions -----------------------------------------------------------

/// The characters of `s`, in order.
pub fn chars_of(s: &str) -> (v: Vec<char>)
    ensures
        v@ == s@,
{
    let mut v: Vec<char> = Vec::new();
    for c in it: s.chars()
        invariant
            v@ == it.seq().take(it.index() as int),
    {
        v.push(c);
    }
    v
}

/// `String::push`: appends one character to the string.
#[verifier::external_body]
pub(crate) fn push_char(s: &mut String, c: char)
    ensures
        final(s)@ == old(s)@.push(c),
{
    s.push(c);
}

/// `format!("{:?}", s)`: the `Debug` rendering of a string (quoted and
/// escaped).
pub uninterp spec fn debug_quoted(s: Seq<char>) -> Seq<char>;

/// Renders `s` with `str`'s `Debug` formatting. The contract only ties the
/// result to `debug_quoted` of the input; the escaping rules are std's.
#[verifier::external_body]
pub(crate) fn debug_quote(s: &str) -> (r: String)
    ensures
        r@ == debug_quoted(s@),
{
    format!("{:?}", s)
}

/// A `String` holding exactly the given characters.
pub fn string_of(v: &Vec<char>) -> (s: String)
    ensures
        s@ == v@,
{
    let mut s = String::new();
    let mut i: usize = 0;
    while i < v.len()
        invariant
            i <= v.len(),
            s@ == v@.take(i as int),
        decreases v.len() - i,
    {
        push_char(&mut s, v[i]);
        i = i + 1;
        assert(s@ =~= v@.take(i as int));
    }
    assert(v@.take(v.len() as int) =~= v@);
    s
}

/// Appends the characters of `v` to `s`.
pub fn push_chars(s: &mut String, v: &Vec<char>)
    ensures
        final(s)@ == old(s)@ + v@,
{
    let ghost start = s@;
    let mut i: usize = 0;
    while i < v.len()
        invariant
            i <= v.len(),
            s@ == start + v@.take(i as int),
        decreases v.len() - i,
    {
        push_char(s, v[i]);
        i = i + 1;
        assert(s@ =~= start + v@.take(i as int));
    }
    assert(v@.take(v.len() as int) =~= v@);
}

/// Appends a string slice to `s`.
pub fn push_str(s: &mut String, t: &str)
    ensures
        final(s)@ == old(s)@ + t@,
{
    let v = chars_of(t);
    push_chars(s, &v);
}

/// A new `String` with the contents of `t`.
pub fn owned(t: &str) -> (s: String)
    ensures
        s@ == t@,
{
    let mut s = String::new();
    push_str(&mut s, t);
    assert(s@ =~= t@);
    s
}

/// Character-wise equality of two character vectors.
pub fn chars_eq(a: &Vec<char>, b: &Vec<char>) -> (r: bool)
    ensures
        r == (a@ == b@),
{
    if a.len() != b.len() {
        return false;
    }
    let mut i: usize = 0;
    while i < a.len()
        invariant
            a.len() == b.len(),
            i <= a.len(),
            forall|j: int| 0 <= j < i ==> a@[j] == b@[j],
        decreases a.len() - i,
    {
        if a[i] != b[i] {
            return false;
        }
        i = i + 1;
    }
    assert(a@ =~= b@);
    true
}

/// Whether `s` equals the string slice `t`.
pub fn chars_eq_str(s: &Vec<char>, t: &str) -> (r: bool)
    ensures
        r == (s@ == t@),
{
    let tv = chars_of(t);
    chars_eq(s, &tv)
}

/// Whether two string slices are equal.
pub fn str_eq(a: &str, b: &str) -> (r: bool)
    ensures
        r == (a@ == b@),
{
    let av = chars_of(a);
    chars_eq_str(&av, b)
}

/// Whether `p` is a prefix of `s` starting at position `at`.
pub open spec fn has_prefix_at(s: Seq<char>, p: Seq<char>, at: int) -> bool {
    0 <= at && at + p.len() <= s.len() && s.subrange(at, at + p.len()) == p
}

/// Whether `s[at..]` starts with `p`.
pub fn starts_with_at(s: &Vec<char>, p: &Vec<char>, at: usize) -> (r: bool)
    requires
        at <= s.len(),
    ensures
        r == has_prefix_at(s@, p@, at as int),
{
    if p.len() > s.len() - at {
        return false;
    }
    let mut i: usize = 0;
    while i < p.len()
        invariant
            at + p.len() <= s.len(),
            i <= p.len(),
            forall|j: int| 0 <= j < i ==> s@[at + j] == p@[j],
        decreases p.len() - i,
    {
        if s[at + i] != p[i] {
            assert(s@.subrange(at as int, at + p.len())[i as int] != p@[i as int]);
            return false;
        }
        i = i + 1;
    }
    assert(s@.subrange(at as int, at + p.len()) =~= p@);
    true
}

/// Whether `s` contains the character `c`.
pub fn contains_char(s: &Vec<char>, c: char) -> (r: bool)
    ensures
        r == s@.contains(c),
{
    let mut i: usize = 0;
    while i < s.len()
        invariant
            i <= s.len(),
            forall|j: int| 0 <= j < i ==> s@[j] != c,
        decreases s.len() - i,
    {
        if s[i] == c {
            return true;
        }
        i = i + 1;
    }
    false
}

// ----- Lines -----------------------------------------------------------------

/// A line with one trailing carriage return removed.
pub open spec fn strip_cr(l: Seq<char>) -> Seq<char> {
    if l.len() > 0 && l.last() == '\r' {
        l.drop_last()
    } else {
        l
    }
}

/// Completed lines and the unfinished current line after reading the
/// first `n` characters of `s`.
pub open spec fn lines_acc(s: Seq<char>, n: nat) -> (Seq<Seq<char>>, Seq<char>)
    decreases n,
{
    if n == 0 {
        (seq![], seq![])
    } else {
        let (ls, cur) = lines_acc(s, (n - 1) as nat);
        if s[n - 1] == '\n' {
            (ls.push(strip_cr(cur)), seq![])
        } else {
            (ls, cur.push(s[n - 1]))
        }
    }
}

/// `str::lines`: lines split at `\n`, a `\r` before the `\n` removed, and
/// no empty final line after a trailing newline.
pub open spec fn lines(s: Seq<char>) -> Seq<Seq<char>> {
    let (ls, cur) = lines_acc(s, s.len());
    if cur.len() > 0 {
        ls.push(cur)
    } else {
        ls
    }
}

/// The views of a sequence of character vectors.
pub open spec fn views(v: Seq<Vec<char>>) -> Seq<Seq<char>> {
    v.map_values(|x: Vec<char>| x@)
}

/// The lines of `s`, as in `str::lines`.
pub fn lines_of(s: &Vec<char>) -> (r: Vec<Vec<char>>)
    ensures
        views(r@) == lines(s@),
{
    let mut ls: Vec<Vec<char>> = Vec::new();
    let mut cur: Vec<char> = Vec::new();
    let mut i: usize = 0;
    while i < s.len()
        invariant
            i <= s.len(),
            lines_acc(s@, i as nat) == (views(ls@), cur@),
        decreases s.len() - i,
    {
        let c = s[i];
        if c == '\n' {
            let ghost before = cur@;
            if cur.len() > 0 && cur[cur.len() - 1] == '\r' {
                cur.pop();
                assert(cur@ =~= before.drop_last());
            }
            let ghost old_ls = ls@;
            ls.push(cur);
            cur = Vec::new();
            assert(views(ls@) =~= views(old_ls).push(strip_cr(before)));
        } else {
            cur.push(c);
        }
        i = i + 1;
    }
    if cur.len() > 0 {
        let ghost old_ls = ls@;
        let ghost c = cur@;
        ls.push(cur);
        assert(views(ls@) =~= views(old_ls).push(c));
    }
    ls
}

// ----- Decimal numbers -------------------------------------------------------

/// Decimal digits of `n`, without leading zeros.
pub open spec fn decimal(n: nat) -> Seq<char>
    decreases n,
{
    if n < 10 {
        seq![digit_char(n)]
    } else {
        decimal(n / 10).push(digit_char(n % 10))
    }
}

/// Decimal representation of an integer, with a leading `-` when negative.
pub open spec fn int_decimal(i: int) -> Seq<char> {
    if i < 0 {
        seq!['-'] + decimal((-i) as nat)
    } else {
        decimal(i as nat)
    }
}

/// Appends the decimal digits of `n` to `out`.
pub fn push_decimal(out: &mut String, n: u64)
    ensures
        final(out)@ == old(out)@ + decimal(n as nat),
    decreases n,
{
    let d = (n % 10) as u8;
    if n >= 10 {
        push_decimal(out, n / 10);
    }
    let c = (d + 48) as char;
    assert(c == digit_char(n as nat)) by {
        assert((n as nat) % 10 == d);
    }
    push_char(out, c);
    proof {
        if n >= 10 {
            assert(digit_char(n as nat) == digit_char((n % 10) as nat));
        }
    }
    assert(out@ =~= old(out)@ + decimal(n as nat));
}

/// Decimal representation of an unsigned integer.
pub fn u64_to_string(n: u64) -> (s: String)
    ensures
        s@ == decimal(n as nat),
{
    let mut s = String::new();
    push_decimal(&mut s, n);
    assert(s@ =~= decimal(n as nat));
    s
}

/// Appends the decimal representation of a signed integer to `out`.
pub fn push_int(out: &mut String, i: i64)
    ensures
        final(out)@ == old(out)@ + int_decimal(i as int),
{
    if i < 0 {
        push_char(out, '-');
        let magnitude: u64 = ((-(i as i128)) as u64);
        push_decimal(out, magnitude);
        assert(out@ =~= old(out)@ + int_decimal(i as int));
    } else {
        push_decimal(out, i as u64);
    }
}

/// Decimal representation of a signed integer.
pub fn i64_to_string(i: i64) -> (s: String)
    ensures
        s@ == int_decimal(i as int),
{
    let mut s = String::new();
    push_int(&mut s, i);
    assert(s@ =~= int_decimal(i as int));
    s
}

/// Value of a sequence of decimal digits (most significant first).
pub open spec fn digits_value(s: Seq<char>) -> nat
    decreases s.len(),
{
    if s.len() == 0 {
        0
    } else {
        digits_value(s.drop_last()) * 10 + digit_value(s.last())
    }
}

pub open spec fn all_digits(s: Seq<char>) -> bool {
    forall|i: int| 0 <= i < s.len() ==> #[trigger] is_digit(s[i])
}

/// A non-empty run of digits, as a number.
pub open spec fn digits_number(s: Seq<char>) -> Option<int> {
    if s.len() > 0 && all_digits(s) {
        Some(digits_value(s) as int)
    } else {
        None
    }
}

/// The integer that Rust's `FromStr` for integers reads from `s`, before
/// the range check: an optional `+` (or, for signed targets, `-`) followed
/// by at least one ASCII digit; anything else is rejected.
pub open spec fn parse_int(s: Seq<char>, signed: bool) -> Option<int> {
    if s.len() == 0 {
        None
    } else if s.len() == 1 && (s[0] == '+' || s[0] == '-') {
        None
    } else if s[0] == '+' {
        digits_number(s.drop_first())
    } else if s[0] == '-' && signed {
        match digits_number(s.drop_first()) {
            Some(v) => Some(-v),
            None => None,
        }
    } else {
        digits_number(s)
    }
}

/// `s.parse::<i64>()`, as an option.
pub open spec fn parse_i64_spec(s: Seq<char>) -> Option<i64> {
    match parse_int(s, true) {
        Some(v) => if i64::MIN <= v <= i64::MAX {
            Some(v as i64)
        } else {
            None
        },
        None => None,
    }
}

/// `s.parse::<u32>()`, as an option.
pub open spec fn parse_u32_spec(s: Seq<char>) -> Option<u32> {
    match parse_int(s, false) {
        Some(v) => if 0 <= v <= u32::MAX {
            Some(v as u32)
        } else {
            None
        },
        None => None,
    }
}

proof fn lemma_digits_value_prefix(s: Seq<char>, k: int)
    requires
        0 <= k <= s.len(),
        all_digits(s),
    ensures
        digits_value(s.take(k)) <= digits_value(s),
    decreases s.len(),
{
    if k < s.len() {
        assert(s.drop_last().take(k) =~= s.take(k));
        assert(all_digits(s.drop_last())) by {
            assert forall|i: int| 0 <= i < s.drop_last().len() implies #[trigger] is_digit(
                s.drop_last()[i],
            ) by {
                assert(s.drop_last()[i] == s[i]);
            }
        }
        lemma_digits_value_prefix(s.drop_last(), k);
    } else {
        assert(s.take(k) =~= s);
    }
}

/// Magnitude of the digits `s[from..]` when it is at most `limit`.
fn digits_magnitude(s: &Vec<char>, from: usize, limit: u128) -> (r: Option<u128>)
    requires
        from <= s.len(),
        limit <= 0x1_0000_0000_0000_0000,
    ensures
        ({
            let d = s@.subrange(from as int, s.len() as int);
            match r {
                Some(m) => d.len() > 0 && all_digits(d) && m == digits_value(d) && m <= limit,
                None => d.len() == 0 || !all_digits(d) || digits_value(d) > limit,
            }
        }),
{
    let ghost d = s@.subrange(from as int, s.len() as int);
    if from == s.len() {
        return None;
    }
    let mut acc: u128 = 0;
    let mut i = from;
    while i < s.len()
        invariant
            from <= i <= s.len(),
            d == s@.subrange(from as int, s.len() as int),
            limit <= 0x1_0000_0000_0000_0000,
            acc <= limit,
            forall|j: int| 0 <= j < i - from ==> #[trigger] is_digit(d[j]),
            acc == digits_value(d.take(i - from)),
        decreases s.len() - i,
    {
        let c = s[i];
        let u = c as u32;
        if u < 48 || u > 57 {
            assert(!is_digit(d[i - from]));
            return None;
        }
        proof {
            assert(d.take(i - from + 1).drop_last() =~= d.take(i - from));
            assert(d.take(i - from + 1).last() == c);
        }
        acc = acc * 10 + (u - 48) as u128;
        i = i + 1;
        assert(forall|j: int| 0 <= j < i - from ==> #[trigger] is_digit(d[j]));
        if acc > limit {
            proof {
                if all_digits(d) {
                    lemma_digits_value_prefix(d, i - from);
                }
            }
            return None;
        }
    }
    assert(d.take(d.len() as int) =~= d);
    Some(acc)
}

/// `s.parse::<i64>().ok()`.
pub fn parse_i64(s: &Vec<char>) -> (r: Option<i64>)
    ensures
        r == parse_i64_spec(s@),
{
    if s.len() == 0 {
        return None;
    }
    if s.len() == 1 && (s[0] == '+' || s[0] == '-') {
        return None;
    }
    if s[0] == '+' || s[0] == '-' {
        assert(s@.subrange(1, s.len() as int) =~= s@.drop_first());
        if s[0] == '+' {
            match digits_magnitude(s, 1, 0x7fff_ffff_ffff_ffff) {
                Some(m) => Some(m as i64),
                None => None,
            }
        } else {
            match digits_magnitude(s, 1, 0x8000_0000_0000_0000) {
                Some(m) => {
                    let v = (0i128 - m as i128) as i64;
                    Some(v)
                },
                None => None,
            }
        }
    } else {
        assert(s@.subrange(0, s.len() as int) =~= s@);
        match digits_magnitude(s, 0, 0x7fff_ffff_ffff_ffff) {
            Some(m) => Some(m as i64),
            None => None,
        }
    }
}

/// `s.parse::<u32>().ok()`.
pub fn parse_u32(s: &Vec<char>) -> (r: Option<u32>)
    ensures
        r == parse_u32_spec(s@),
{
    if s.len() == 0 {
        return None;
    }
    if s.len() == 1 && (s[0] == '+' || s[0] == '-') {
        return None;
    }
    if s[0] == '+' {
        assert(s@.subrange(1, s.len() as int) =~= s@.drop_first());
        match digits_magnitude(s, 1, 0xffff_ffff) {
            Some(m) => Some(m as u32),
            None => None,
        }
    } else {
        assert(s@.subrange(0, s.len() as int) =~= s@);
        match digits_magnitude(s, 0, 0xffff_ffff) {
            Some(m) => Some(m as u32),
            None => None,
        }
    }
}

// ----- Identifiers -----------------------------------------------------------

/// The snake_case form of a CamelCase identifier: each capital after the
/// first letter starts a new word after `_`, and every capital is lowered.
pub open spec fn snake_case(s: Seq<char>) -> Seq<char>
    decreases s.len(),
{
    if s.len() == 0 {
        seq![]
    } else {
        let c = s.last();
        let init = s.drop_last();
        if 'A' <= c && c <= 'Z' {
            if init.len() == 0 {
                seq![ascii_lower(c)]
            } else {
                snake_case(init) + seq!['_', ascii_lower(c)]
            }
        } else {
            snake_case(init).push(c)
        }
    }
}

/// The text with every ASCII capital lowered.
pub open spec fn lower_ascii_text(s: Seq<char>) -> Seq<char> {
    s.map_values(|c: char| ascii_lower(c))
}

} // verus!
