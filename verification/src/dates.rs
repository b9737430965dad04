//! Resolution of smart date shortcuts (`tomorrow`, `next friday`,
//! `in 2 weeks`, ...) into calendar days and times of day.
//!
//! Resolution is deterministic: it takes the reference day and what holds
//! of today's configured times relative to the reference instant, so the
//! same inputs always give the same day. Only the documented grammar is
//! accepted; anything else is rejected with an actionable error.
//!
//! Days are counted as chrono counts them: day 1 is 0001-01-01 of the
//! proleptic Gregorian calendar. Calendar arithmetic is chrono's.

use vstd::prelude::*;

use crate::error::{Error, is_invalid_argument, rejects};
use crate::text::{
    chars_eq_str, chars_of, copy_range, digit_value, is_digit, is_whitespace, is_ws, owned, parse_u32,
    parse_u32_spec, push_char, push_decimal, push_str, string_of, trim, trim_str,
};

verus! {

/// The zero date Vikunja uses to clear a date field on update.
pub const CLEAR_DATE_RFC3339: &'static str = "0001-01-01T00:00:00Z";

/// A time of day at minute precision.
#[derive(Debug, Clone, Copy, PartialEq, Eq, Structural)]
pub struct TimeOfDay {
    pub hour: u32,
    pub minute: u32,
}

/// Times of day applied when a shortcut resolves to a calendar date.
#[derive(Debug, Clone, Copy, PartialEq, Eq, Structural)]
pub struct DateConfig {
    /// Time of day used by most shortcuts.
    pub default_time: TimeOfDay,
    /// Time of day used by `end of week`.
    pub end_of_day_time: TimeOfDay,
}

impl Default for DateConfig {
    fn default() -> (r: Self)
        ensures
            r.default_time == (TimeOfDay { hour: 9, minute: 0 }),
            r.end_of_day_time == (TimeOfDay { hour: 23, minute: 59 }),
    {
        DateConfig {
            default_time: TimeOfDay { hour: 9, minute: 0 },
            end_of_day_time: TimeOfDay { hour: 23, minute: 59 },
        }
    }
}

/// The hour and minute chrono reads from `text` with the format `%H:%M`,
/// if it accepts it.
pub uninterp spec fn hh_mm_reading(text: Seq<char>) -> Option<(u32, u32)>;

/// The number written by two decimal digits.
pub open spec fn digits_value(a: char, b: char) -> nat {
    digit_value(a) * 10 + digit_value(b)
}

/// `HH:MM` with two digits each, an hour below 24 and a minute below 60.
pub open spec fn canonical_hh_mm(t: Seq<char>) -> bool {
    &&& t.len() == 5
    &&& is_digit(t[0]) && is_digit(t[1]) && t[2] == ':' && is_digit(t[3]) && is_digit(t[4])
    &&& digits_value(t[0], t[1]) < 24
    &&& digits_value(t[3], t[4]) < 60
}

/// Parses with `chrono::NaiveTime::parse_from_str(text, "%H:%M")`. What it
/// accepts is named, not stated in full: an accepted time has an hour below
/// 24 and a minute below 60, and `HH:MM` with two digits each in range is
/// accepted as written.
#[verifier::external_body]
fn parse_hh_mm(text: &str) -> (r: Option<(u32, u32)>)
    ensures
        r == hh_mm_reading(text@),
        r matches Some((h, m)) ==> h < 24 && m < 60,
        canonical_hh_mm(text@) ==> r == Some(
            (digits_value(text@[0], text@[1]) as u32, digits_value(text@[3], text@[4]) as u32),
        ),
{
    match chrono::NaiveTime::parse_from_str(text, "%H:%M") {
        Ok(t) => Some((chrono::Timelike::hour(&t), chrono::Timelike::minute(&t))),
        Err(_) => None,
    }
}

/// Parses a `HH:MM` time-of-day string, such as a configured default time.
pub fn parse_time_of_day(raw: &str) -> (r: Result<TimeOfDay, String>)
    ensures
        match hh_mm_reading(trim(raw@)) {
            Some((h, m)) => r == Ok::<TimeOfDay, String>(TimeOfDay { hour: h, minute: m }),
            None => r matches Err(e) && e@ == "`"@ + raw@
                + "` is not a valid time of day: use HH:MM, e.g. 09:00"@,
        },
        canonical_hh_mm(trim(raw@)) ==> r == Ok::<TimeOfDay, String>(
            TimeOfDay {
                hour: digits_value(trim(raw@)[0], trim(raw@)[1]) as u32,
                minute: digits_value(trim(raw@)[3], trim(raw@)[4]) as u32,
            },
        ),
{
    let trimmed = string_of(&trim_str(raw));
    match parse_hh_mm(trimmed.as_str()) {
        Some((h, m)) => Ok(TimeOfDay { hour: h, minute: m }),
        None => {
            let mut e = owned("`");
            push_str(&mut e, raw);
            push_str(&mut e, "` is not a valid time of day: use HH:MM, e.g. 09:00");
            Err(e)
        },
    }
}

// ----- Calendar days ---------------------------------------------------------

/// The day `n` days after `day`, as chrono's `NaiveDate::checked_add_days`
/// gives it (`None` out of chrono's date range).
pub uninterp spec fn day_plus(day: i32, n: u64) -> Option<i32>;

/// The day `n` days before `day`, as chrono's `NaiveDate::checked_sub_days`
/// gives it.
pub uninterp spec fn day_minus(day: i32, n: u64) -> Option<i32>;

/// The day `months` calendar months after `day`, clamped to the end of a
/// shorter month, as chrono's `NaiveDate::checked_add_months` gives it.
pub uninterp spec fn day_plus_months(day: i32, months: u32) -> Option<i32>;

/// The day chrono reads from `text` with the format `%Y-%m-%d`, or the text
/// of its parse error.
pub uninterp spec fn ymd_reading(text: Seq<char>) -> Result<i32, Seq<char>>;

/// Days (numbered from 1 January of year 1, day 1) well inside chrono's
/// date range, which spans the years -262143 to 262142.
pub open spec fn well_in_range(day: int) -> bool {
    -95_000_000 <= day <= 95_000_000
}

/// The day `n` days after `day`: the plain sum while both lie well inside
/// chrono's range, chrono's answer elsewhere.
pub open spec fn days_after(day: i32, n: u64) -> Option<i32> {
    if well_in_range(day as int) && well_in_range(day + n) {
        Some((day + n) as i32)
    } else {
        day_plus(day, n)
    }
}

/// The day `n` days before `day`, in the same way.
pub open spec fn days_before(day: i32, n: u64) -> Option<i32> {
    if well_in_range(day as int) && well_in_range(day - n) {
        Some((day - n) as i32)
    } else {
        day_minus(day, n)
    }
}

/// `NaiveDate::checked_add_days` on the day `day`: `None` for a day or a
/// sum out of chrono's range; an accepted sum is the plain sum, and a sum
/// well inside the range is accepted.
#[verifier::external_body]
fn add_days_checked(day: i32, n: u64) -> (r: Option<i32>)
    ensures
        r == day_plus(day, n),
        r matches Some(x) ==> x == day + n,
        well_in_range(day as int) && well_in_range(day + n) ==> r == Some((day + n) as i32),
{
    match chrono::NaiveDate::from_num_days_from_ce_opt(day) {
        Some(d) => match d.checked_add_days(chrono::Days::new(n)) {
            Some(x) => Some(chrono::Datelike::num_days_from_ce(&x)),
            None => None,
        },
        None => None,
    }
}

/// `NaiveDate::checked_sub_days` on the day `day`: an accepted difference
/// is the plain difference, and one well inside the range is accepted.
#[verifier::external_body]
fn sub_days_checked(day: i32, n: u64) -> (r: Option<i32>)
    ensures
        r == day_minus(day, n),
        r matches Some(x) ==> x == day - n,
        well_in_range(day as int) && well_in_range(day - n) ==> r == Some((day - n) as i32),
{
    match chrono::NaiveDate::from_num_days_from_ce_opt(day) {
        Some(d) => match d.checked_sub_days(chrono::Days::new(n)) {
            Some(x) => Some(chrono::Datelike::num_days_from_ce(&x)),
            None => None,
        },
        None => None,
    }
}

/// `NaiveDate::checked_add_months` on the day `day`. The result is named,
/// not stated.
#[verifier::external_body]
fn add_months_checked(day: i32, months: u32) -> (r: Option<i32>)
    ensures
        r == day_plus_months(day, months),
{
    match chrono::NaiveDate::from_num_days_from_ce_opt(day) {
        Some(d) => match d.checked_add_months(chrono::Months::new(months)) {
            Some(x) => Some(chrono::Datelike::num_days_from_ce(&x)),
            None => None,
        },
        None => None,
    }
}

/// `NaiveDate::parse_from_str(text, "%Y-%m-%d")`, the error taken by its
/// `Display` text. The result is named, not stated.
#[verifier::external_body]
fn parse_ymd(text: &str) -> (r: Result<i32, String>)
    ensures
        match r {
            Ok(d) => ymd_reading(text@) == Ok::<i32, Seq<char>>(d),
            Err(e) => ymd_reading(text@) == Err::<i32, Seq<char>>(e@),
        },
{
    match chrono::NaiveDate::parse_from_str(text, "%Y-%m-%d") {
        Ok(d) => Ok(chrono::Datelike::num_days_from_ce(&d)),
        Err(e) => Err(e.to_string()),
    }
}

/// The weekday of a day, counted from Monday (0) to Sunday (6): day 1,
/// 0001-01-01, is a Monday.
pub open spec fn weekday(day: int) -> int {
    (day - 1) % 7
}

fn weekday_of(day: i32) -> (w: u32)
    ensures
        w == weekday(day as int),
        w < 7,
{
    let r: i64 = (day as i64 - 1) % 7;
    let w: i64 = if r < 0 {
        r + 7
    } else {
        r
    };
    w as u32
}

/// Days from `today` until the next `target` weekday (0 when today is it).
pub open spec fn days_until(today: int, target: u32) -> nat {
    ((target + 7 - weekday(today)) % 7) as nat
}

fn days_until_exec(today: i32, target: u32) -> (n: u64)
    requires
        target < 7,
    ensures
        n == days_until(today as int, target),
        n < 7,
{
    let w = weekday_of(today);
    ((target + 7 - w) % 7) as u64
}

/// `day` is the first day on weekday `w` counted from `from`: `from`
/// itself included when `from_counts`, else strictly after it.
pub open spec fn first_weekday_from(day: int, from: int, w: int, from_counts: bool) -> bool {
    &&& weekday(day) == w
    &&& if from_counts {
        from <= day
    } else {
        from < day
    }
    &&& forall|k: int|
        (if from_counts {
            from <= k
        } else {
            from < k
        }) && k < day ==> #[trigger] weekday(k) != w
}

/// Weekdays repeat every seven days: `days_until` lands on the target and
/// skips no earlier occurrence, and a week later is the same weekday with
/// none of the six days between on it.
pub proof fn lemma_days_until(today: int, w: u32)
    requires
        w < 7,
    ensures
        weekday(today + days_until(today, w)) == w,
        forall|j: int| today <= j < today + days_until(today, w) ==> #[trigger] weekday(j) != w,
        weekday(today + 7) == weekday(today),
        forall|j: int| today < j < today + 7 ==> #[trigger] weekday(j) != weekday(today),
{
    let wt = weekday(today);
    assert forall|k: int| 0 <= k <= 7 implies #[trigger] weekday(today + k) == (k + wt) % 7 by {
        vstd::arithmetic::div_mod::lemma_add_mod_noop_right(k, today - 1, 7);
        assert(today + k - 1 == k + (today - 1));
    }
    let a = days_until(today, w) as int;
    assert(0 <= wt < 7);
    assert(weekday(today + a) == (a + wt) % 7);
    assert forall|j: int| today <= j < today + days_until(today, w) implies #[trigger] weekday(j)
        != w by {
        assert(weekday(today + (j - today)) == ((j - today) + wt) % 7);
        assert(today + (j - today) == j);
    }
    assert(weekday(today + 7) == (7 + wt) % 7);
    assert forall|j: int| today < j < today + 7 implies #[trigger] weekday(j) != weekday(today) by {
        assert(weekday(today + (j - today)) == ((j - today) + wt) % 7);
        assert(today + (j - today) == j);
        assert(weekday(today + 0) == (0 + wt) % 7);
    }
}

// ----- Expressions -----------------------------------------------------------

/// Lower-casing as `str::to_lowercase` does it (Unicode case mapping).
pub uninterp spec fn lowercase(s: Seq<char>) -> Seq<char>;

/// The lower-case form of an ASCII character: `A`..`Z` become `a`..`z`,
/// every other character stays.
pub open spec fn ascii_lower(c: char) -> char {
    if 'A' <= c <= 'Z' {
        ((c as u32) + 32) as char
    } else {
        c
    }
}

/// Every character is ASCII.
pub open spec fn is_ascii_text(s: Seq<char>) -> bool {
    forall|i: int| 0 <= i < s.len() ==> (#[trigger] s[i] as u32) < 128
}

/// Lower-casing: ASCII text character by character, other text by
/// Unicode case mapping.
pub open spec fn lower_text(s: Seq<char>) -> Seq<char> {
    if is_ascii_text(s) {
        s.map_values(|c: char| ascii_lower(c))
    } else {
        lowercase(s)
    }
}

/// `str::to_lowercase`. The result is named; on ASCII text, where the
/// Unicode lower-case mapping is the ASCII one, it is stated.
#[verifier::external_body]
fn to_lowercase(s: &str) -> (r: String)
    ensures
        r@ == lowercase(s@),
        is_ascii_text(s@) ==> r@ == s@.map_values(|c: char| ascii_lower(c)),
{
    s.to_lowercase()
}

/// Words of `s[..k]` joined by single spaces, and whether a space is due
/// before the next word.
pub open spec fn collapse_acc(s: Seq<char>, k: nat) -> (Seq<char>, bool)
    decreases k,
{
    if k == 0 {
        (Seq::empty(), false)
    } else {
        let (out, pending) = collapse_acc(s, (k - 1) as nat);
        let c = s[k - 1];
        if is_ws(c) {
            (out, out.len() > 0)
        } else if pending {
            (out.push(' ').push(c), false)
        } else {
            (out.push(c), false)
        }
    }
}

/// The whitespace-separated words of `s` joined by single spaces.
pub open spec fn collapse_ws(s: Seq<char>) -> Seq<char> {
    collapse_acc(s, s.len()).0
}

/// An expression as the grammar reads it: trimmed, lower-cased, and with
/// runs of whitespace collapsed to one space.
pub open spec fn normalize(expression: Seq<char>) -> Seq<char> {
    collapse_ws(lower_text(trim(expression)))
}

fn collapse(s: &str) -> (r: Vec<char>)
    ensures
        r@ == collapse_ws(s@),
{
    let v = chars_of(s);
    let mut out: Vec<char> = Vec::new();
    let mut pending = false;
    let mut i: usize = 0;
    while i < v.len()
        invariant
            i <= v.len(),
            v@ == s@,
            (out@, pending) == collapse_acc(v@, i as nat),
        decreases v.len() - i,
    {
        let c = v[i];
        if is_whitespace(c) {
            pending = out.len() > 0;
        } else {
            if pending {
                out.push(' ');
            }
            out.push(c);
            pending = false;
        }
        i = i + 1;
    }
    out
}

fn normalized(expression: &str) -> (r: Vec<char>)
    ensures
        r@ == normalize(expression@),
{
    let trimmed = string_of(&trim_str(expression));
    let lower = to_lowercase(trimmed.as_str());
    collapse(lower.as_str())
}

/// The weekday (Monday 0 .. Sunday 6) a lower-case word names.
pub open spec fn weekday_word(w: Seq<char>) -> Option<u32> {
    if w == "monday"@ {
        Some(0)
    } else if w == "tuesday"@ {
        Some(1)
    } else if w == "wednesday"@ {
        Some(2)
    } else if w == "thursday"@ {
        Some(3)
    } else if w == "friday"@ {
        Some(4)
    } else if w == "saturday"@ {
        Some(5)
    } else if w == "sunday"@ {
        Some(6)
    } else {
        None
    }
}

fn parse_weekday(w: &Vec<char>) -> (r: Option<u32>)
    ensures
        r == weekday_word(w@),
        r matches Some(x) ==> x < 7,
{
    if chars_eq_str(w, "monday") {
        Some(0)
    } else if chars_eq_str(w, "tuesday") {
        Some(1)
    } else if chars_eq_str(w, "wednesday") {
        Some(2)
    } else if chars_eq_str(w, "thursday") {
        Some(3)
    } else if chars_eq_str(w, "friday") {
        Some(4)
    } else if chars_eq_str(w, "saturday") {
        Some(5)
    } else if chars_eq_str(w, "sunday") {
        Some(6)
    } else {
        None
    }
}

/// Whether a word looks like a date: at least 8 characters, all ASCII
/// digits or `-`. A cheap pre-check so clearly non-date words get the
/// grammar error instead of a date-parse error.
pub open spec fn date_like(word: Seq<char>) -> bool {
    word.len() >= 8 && forall|i: int| 0 <= i < word.len() ==> is_digit(#[trigger] word[i])
        || word[i] == '-'
}

pub fn looks_like_date(word: &str) -> (r: bool)
    ensures
        r == date_like(word@),
{
    let v = chars_of(word);
    let mut i: usize = 0;
    while i < v.len()
        invariant
            i <= v.len(),
            v@ == word@,
            forall|j: int| 0 <= j < i ==> is_digit(#[trigger] v@[j]) || v@[j] == '-',
        decreases v.len() - i,
    {
        let c = v[i];
        let code = c as u32;
        if !((48 <= code && code <= 57) || c == '-') {
            assert(!(is_digit(v@[i as int]) || v@[i as int] == '-'));
            return false;
        }
        i = i + 1;
    }
    v.len() >= 8
}

pub open spec fn unsupported_message(expression: Seq<char>) -> Seq<char> {
    "unsupported date shortcut `"@ + expression
        + "`: use today, tomorrow, yesterday, in N days/weeks/months, [next] monday..sunday, end of week, YYYY-MM-DD, or clear/none/unset/no due date"@
}

pub open spec fn out_of_range_message(expression: Seq<char>) -> Seq<char> {
    "`"@ + expression + "` resolves to a date out of range"@
}

/// The error for an expression outside the grammar.
pub fn unsupported(expression: &str) -> (e: Error)
    ensures
        is_invalid_argument(e, unsupported_message(expression@)),
{
    let mut m = owned("unsupported date shortcut `");
    push_str(&mut m, expression);
    push_str(
        &mut m,
        "`: use today, tomorrow, yesterday, in N days/weeks/months, [next] monday..sunday, end of week, YYYY-MM-DD, or clear/none/unset/no due date",
    );
    Error::InvalidArgument(m)
}

/// The error for a shortcut whose date falls outside the calendar range.
pub fn out_of_range(expression: &str) -> (e: Error)
    ensures
        is_invalid_argument(e, out_of_range_message(expression@)),
{
    let mut m = owned("`");
    push_str(&mut m, expression);
    push_str(&mut m, "` resolves to a date out of range");
    Error::InvalidArgument(m)
}

pub open spec fn gap_message(naive: Seq<char>) -> Seq<char> {
    "the resolved local time "@ + naive
        + " does not exist in the server timezone (daylight saving gap); pass an explicit RFC 3339 timestamp instead"@
}

/// The error when a resolved local time falls into a daylight-saving gap;
/// `naive` is the local date and time as text.
pub fn local_time_gap(naive: &str) -> (e: Error)
    ensures
        is_invalid_argument(e, gap_message(naive@)),
{
    let mut m = owned("the resolved local time ");
    push_str(&mut m, naive);
    push_str(
        &mut m,
        " does not exist in the server timezone (daylight saving gap); pass an explicit RFC 3339 timestamp instead",
    );
    Error::InvalidArgument(m)
}

// ----- Resolution ------------------------------------------------------------

/// How a configured time of day today stands to the reference instant.
#[derive(Debug, Clone, PartialEq, Eq)]
pub enum TodayAt {
    /// Today at that time is still ahead of the reference.
    Ahead,
    /// Today at that time is at or before the reference.
    Passed,
    /// That local time does not exist today (a daylight-saving gap); the
    /// text is the local date and time.
    Gap(String),
}

/// What resolution needs to know of the reference instant: its local day
/// and how today's two configured times stand to it.
#[derive(Debug, Clone, PartialEq, Eq)]
pub struct ReferenceDay {
    pub today: i32,
    pub default_time: TodayAt,
    pub end_of_day_time: TodayAt,
}

/// Outcome of resolving a shortcut expression.
#[derive(Debug, Clone, Copy, PartialEq, Eq, Structural)]
pub enum Resolution {
    /// The expression asks to clear the date (omit on create, send the zero
    /// date on update).
    Clear,
    /// The expression resolved to a day and the configured time of day that
    /// applies to it.
    Timestamp { day: i32, time_of_day: TimeOfDay },
}

pub open spec fn add_or_range(day: i32, n: u64) -> Result<i32, Seq<char>> {
    match days_after(day, n) {
        Some(d) => Ok(d),
        None => Err(out_of_range_message("the shortcut"@)),
    }
}

fn add_days(day: i32, n: u64) -> (r: Result<i32, Error>)
    ensures
        match add_or_range(day, n) {
            Ok(d) => r == Ok::<i32, Error>(d),
            Err(m) => rejects(r, m),
        },
        r matches Ok(d) ==> d == day + n,
{
    match add_days_checked(day, n) {
        Some(d) => Ok(d),
        None => Err(out_of_range("the shortcut")),
    }
}

/// The next occurrence of weekday `w`, today included only while the
/// time of day today is still ahead of the reference.
pub open spec fn upcoming_weekday(today: i32, w: u32, at: TodayAt) -> Result<i32, Seq<char>> {
    let ahead = days_until(today as int, w);
    if ahead == 0 {
        match at {
            TodayAt::Ahead => Ok(today),
            TodayAt::Passed => add_or_range(today, 7),
            TodayAt::Gap(naive) => Err(gap_message(naive@)),
        }
    } else {
        add_or_range(today, ahead as u64)
    }
}

fn upcoming(today: i32, w: u32, at: &TodayAt) -> (r: Result<i32, Error>)
    requires
        w < 7,
    ensures
        match upcoming_weekday(today, w, *at) {
            Ok(d) => r == Ok::<i32, Error>(d),
            Err(m) => rejects(r, m),
        },
        r matches Ok(d) ==> first_weekday_from(d as int, today as int, w as int, *at is Ahead),
{
    proof {
        lemma_days_until(today as int, w);
    }
    let ahead = days_until_exec(today, w);
    if ahead == 0 {
        match at {
            TodayAt::Ahead => Ok(today),
            TodayAt::Passed => add_days(today, 7),
            TodayAt::Gap(naive) => Err(local_time_gap(naive.as_str())),
        }
    } else {
        add_days(today, ahead)
    }
}

/// The first occurrence of weekday `w` strictly after today.
pub open spec fn next_weekday_after(today: i32, w: u32) -> Result<i32, Seq<char>> {
    let ahead = days_until(today as int, w);
    add_or_range(
        today,
        if ahead == 0 {
            7u64
        } else {
            ahead as u64
        },
    )
}

/// Where the single space of `s` is, when it has exactly one.
pub open spec fn single_space(s: Seq<char>) -> Option<int> {
    if exists|i: int| 0 <= i < s.len() && s[i] == ' ' && (forall|j: int|
        0 <= j < s.len() && j != i ==> s[j] != ' ') {
        Some(
            choose|i: int|
                0 <= i < s.len() && s[i] == ' ' && (forall|j: int|
                    0 <= j < s.len() && j != i ==> s[j] != ' '),
        )
    } else {
        None
    }
}

pub open spec fn bad_count_message(expression: Seq<char>) -> Seq<char> {
    "`"@ + expression + "`: N must be a positive integer, e.g. `in 3 days`"@
}

/// `N days|weeks|months` after today (`rest` follows `in `).
pub open spec fn in_relative(expression: Seq<char>, today: i32, rest: Seq<char>) -> Result<
    i32,
    Seq<char>,
> {
    match single_space(rest) {
        None => Err(unsupported_message(expression)),
        Some(i) => {
            let count = rest.subrange(0, i);
            let unit = rest.subrange(i + 1, rest.len() as int);
            match parse_u32_spec(count) {
                Some(n) if n > 0 => {
                    let date = if unit == "day"@ || unit == "days"@ {
                        Some(days_after(today, n as u64))
                    } else if unit == "week"@ || unit == "weeks"@ {
                        Some(days_after(today, (7 * n) as u64))
                    } else if unit == "month"@ || unit == "months"@ {
                        Some(day_plus_months(today, n))
                    } else {
                        None
                    };
                    match date {
                        None => Err(unsupported_message(expression)),
                        Some(None) => Err(out_of_range_message(expression)),
                        Some(Some(d)) => Ok(d),
                    }
                },
                _ => Err(bad_count_message(expression)),
            }
        },
    }
}

pub open spec fn starts_with(s: Seq<char>, p: Seq<char>) -> bool {
    p.len() <= s.len() && s.subrange(0, p.len() as int) == p
}

pub open spec fn after(s: Seq<char>, p: Seq<char>) -> Seq<char> {
    s.subrange(p.len() as int, s.len() as int)
}

/// What `in N days|weeks|months` (`rest` follows `in `) promises of the
/// day it resolves to: `N` days, `7 * N` days, or `N` calendar months
/// after today (the calendar-aware month step named by chrono's
/// `checked_add_months`).
pub open spec fn relative_day_law(rest: Seq<char>, today: int, day: int) -> bool {
    match single_space(rest) {
        Some(i) => match parse_u32_spec(rest.subrange(0, i)) {
            Some(k) => {
                let unit = rest.subrange(i + 1, rest.len() as int);
                if unit == "day"@ || unit == "days"@ {
                    day == today + k
                } else if unit == "week"@ || unit == "weeks"@ {
                    day == today + 7 * k
                } else if unit == "month"@ || unit == "months"@ {
                    day_plus_months(today as i32, k) == Some(day as i32)
                } else {
                    true
                }
            },
            None => true,
        },
        None => true,
    }
}

/// `in N <unit>` counts its `N`: a successful resolution lies exactly `N`
/// days, `7 * N` days (both well inside chrono's range) or `N` calendar
/// months after today, and only a positive `N` resolves.
pub proof fn lemma_in_relative_counts(expression: Seq<char>, today: i32, rest: Seq<char>)
    ensures
        in_relative(expression, today, rest) matches Ok(d) ==> match single_space(rest) {
            Some(i) => match parse_u32_spec(rest.subrange(0, i)) {
                Some(k) => {
                    let unit = rest.subrange(i + 1, rest.len() as int);
                    &&& k > 0
                    &&& (unit == "day"@ || unit == "days"@) ==> (well_in_range(today as int)
                        && well_in_range(today + k) ==> d == today + k)
                    &&& (unit == "week"@ || unit == "weeks"@) ==> (well_in_range(today as int)
                        && well_in_range(today + 7 * k) ==> d == today + 7 * k)
                    &&& (unit == "month"@ || unit == "months"@) ==> day_plus_months(today, k)
                        == Some(d)
                },
                None => false,
            },
            None => false,
        },
{
    reveal_strlit("day");
    reveal_strlit("days");
    reveal_strlit("week");
    reveal_strlit("weeks");
    reveal_strlit("month");
    reveal_strlit("months");
    let (d1, d2, w1, w2, m1, m2) = ("day"@, "days"@, "week"@, "weeks"@, "month"@, "months"@);
    assert(d1.len() == 3 && d2.len() == 4 && w1.len() == 4 && w2.len() == 5 && m1.len() == 5
        && m2.len() == 6);
    assert(d2[0] != w1[0] && w2[0] != m1[0]);
    assert(d1 != w1 && d1 != w2 && d2 != w1 && d2 != w2 && d1 != m1 && d1 != m2 && d2 != m1
        && d2 != m2 && w1 != m1 && w1 != m2 && w2 != m1 && w2 != m2);
    if let Ok(d) = in_relative(expression, today, rest) {
        let i = single_space(rest)->Some_0;
        let k = parse_u32_spec(rest.subrange(0, i))->Some_0;
        let unit = rest.subrange(i + 1, rest.len() as int);
        if unit == "day"@ || unit == "days"@ {
            assert(days_after(today, k as u64) == Some(d));
        } else if unit == "week"@ || unit == "weeks"@ {
            assert(days_after(today, (7 * k) as u64) == Some(d));
            assert((7 * k) as u64 == 7 * k);
        } else {
            assert(day_plus_months(today, k) == Some(d));
        }
    }
}

/// What each shortcut promises of the day it resolves to, for a normalized
/// expression `n`: `today`, `tomorrow` and `yesterday` are that day;
/// `end of week` is the upcoming Sunday; a bare weekday is its next
/// occurrence, today counting only while the default time is still ahead;
/// `next <weekday>` is that weekday strictly after today, one to seven
/// days out; `in N days|weeks` is that many days later.
pub open spec fn resolved_day_law(n: Seq<char>, reference: ReferenceDay, day: int) -> bool {
    let today = reference.today as int;
    if n == "clear"@ || n == "none"@ || n == "no due date"@ || n == "unset"@ {
        true
    } else if n == "today"@ {
        day == today
    } else if n == "tomorrow"@ {
        day == today + 1
    } else if n == "yesterday"@ {
        day == today - 1
    } else if n == "end of week"@ {
        first_weekday_from(day, today, 6, reference.end_of_day_time is Ahead)
    } else if weekday_word(n) is Some {
        first_weekday_from(
            day,
            today,
            weekday_word(n).unwrap() as int,
            reference.default_time is Ahead,
        )
    } else if starts_with(n, "next "@) {
        match weekday_word(after(n, "next "@)) {
            Some(w) => first_weekday_from(day, today, w as int, false) && day <= today + 7,
            None => true,
        }
    } else if starts_with(n, "in "@) {
        relative_day_law(after(n, "in "@), today, day)
    } else {
        true
    }
}

/// A day and the time of day resolved for it.
pub open spec fn at(r: Result<i32, Seq<char>>, t: TimeOfDay) -> Result<Resolution, Seq<char>> {
    match r {
        Ok(d) => Ok(Resolution::Timestamp { day: d, time_of_day: t }),
        Err(m) => Err(m),
    }
}

/// What an expression resolves to. Supported grammar (case-insensitive):
/// `today`, `tomorrow`, `yesterday`, `in N days|weeks|months`,
/// `next monday`..`next sunday` (strictly after today), bare
/// `monday`..`sunday` (next occurrence, today included only while the
/// resolved time is still ahead of the reference), `end of week` (upcoming
/// Sunday at the end-of-day time), `YYYY-MM-DD`, and the clear words
/// `clear` / `none` / `no due date` / `unset`.
pub open spec fn resolution(
    expression: Seq<char>,
    reference: ReferenceDay,
    config: DateConfig,
) -> Result<Resolution, Seq<char>> {
    let n = normalize(expression);
    let today = reference.today;
    let t = config.default_time;
    if n == "clear"@ || n == "none"@ || n == "no due date"@ || n == "unset"@ {
        Ok(Resolution::Clear)
    } else if n == "today"@ {
        Ok(Resolution::Timestamp { day: today, time_of_day: t })
    } else if n == "tomorrow"@ {
        at(add_or_range(today, 1), t)
    } else if n == "yesterday"@ {
        match days_before(today, 1) {
            Some(d) => Ok(Resolution::Timestamp { day: d, time_of_day: t }),
            None => Err(out_of_range_message(expression)),
        }
    } else if n == "end of week"@ {
        at(upcoming_weekday(today, 6, reference.end_of_day_time), config.end_of_day_time)
    } else if weekday_word(n) is Some {
        at(upcoming_weekday(today, weekday_word(n).unwrap(), reference.default_time), t)
    } else if starts_with(n, "next "@) {
        match weekday_word(after(n, "next "@)) {
            Some(w) => at(next_weekday_after(today, w), t),
            None => Err(unsupported_message(expression)),
        }
    } else if starts_with(n, "in "@) {
        at(in_relative(expression, today, after(n, "in "@)), t)
    } else if date_like(n) {
        match ymd_reading(n) {
            Ok(d) => Ok(Resolution::Timestamp { day: d, time_of_day: t }),
            Err(e) => Err("`"@ + expression + "` is not a valid YYYY-MM-DD date: "@ + e),
        }
    } else {
        Err(unsupported_message(expression))
    }
}

/// The words that clear a date.
pub open spec fn is_clear_word(n: Seq<char>) -> bool {
    n == "clear"@ || n == "none"@ || n == "no due date"@ || n == "unset"@
}

/// Expressions with the same normal form (trimmed, lower-cased, each run of
/// whitespace made one space) resolve alike: to the same resolution, or
/// both to an error (whose message quotes the expression as written). An
/// expression resolves to `Clear` exactly when its normal form is one of
/// the clear words.
pub proof fn lemma_resolution_follows_normal_form(
    e1: Seq<char>,
    e2: Seq<char>,
    reference: ReferenceDay,
    config: DateConfig,
)
    requires
        normalize(e1) == normalize(e2),
    ensures
        resolution(e1, reference, config) is Ok <==> resolution(e2, reference, config) is Ok,
        resolution(e1, reference, config) is Ok ==> resolution(e1, reference, config)
            == resolution(e2, reference, config),
        resolution(e1, reference, config) == Ok::<Resolution, Seq<char>>(Resolution::Clear)
            <==> is_clear_word(normalize(e1)),
{
}

fn single_space_exec(s: &Vec<char>) -> (r: Option<usize>)
    ensures
        match single_space(s@) {
            Some(i) => r == Some(i as usize),
            None => r is None,
        },
        r matches Some(k) ==> k < s@.len() && s@[k as int] == ' ',
{
    let mut found: Option<usize> = None;
    let mut i: usize = 0;
    while i < s.len()
        invariant
            i <= s.len(),
            match found {
                None => forall|j: int| 0 <= j < i ==> s@[j] != ' ',
                Some(k) => k < i && s@[k as int] == ' ' && forall|j: int|
                    0 <= j < i && j != k ==> s@[j] != ' ',
            },
        decreases s.len() - i,
    {
        if s[i] == ' ' {
            match found {
                None => {
                    found = Some(i);
                },
                Some(k) => {
                    proof {
                        assert(!exists|m: int| 0 <= m < s@.len() && s@[m] == ' ' && (forall|j: int|
                            0 <= j < s@.len() && j != m ==> s@[j] != ' ')) by {
                            assert forall|m: int|
                                0 <= m < s@.len() && s@[m] == ' ' implies !(forall|j: int|
                                0 <= j < s@.len() && j != m ==> s@[j] != ' ') by {
                                if m == k as int {
                                    assert(s@[i as int] == ' ');
                                } else {
                                    assert(s@[k as int] == ' ');
                                }
                            }
                        }
                    }
                    return None;
                },
            }
        }
        i = i + 1;
    }
    match found {
        None => None,
        Some(k) => {
            assert(s@[k as int] == ' ' && forall|j: int|
                0 <= j < s@.len() && j != k ==> s@[j] != ' ');
            proof {
                let c = choose|m: int|
                    0 <= m < s@.len() && s@[m] == ' ' && (forall|j: int|
                        0 <= j < s@.len() && j != m ==> s@[j] != ' ');
                if c != k as int {
                    assert(s@[c] != ' ');
                }
            }
            Some(k)
        },
    }
}

fn in_relative_exec(expression: &str, today: i32, rest: &Vec<char>) -> (r: Result<i32, Error>)
    ensures
        match in_relative(expression@, today, rest@) {
            Ok(d) => r == Ok::<i32, Error>(d),
            Err(m) => rejects(r, m),
        },
        r matches Ok(d) ==> relative_day_law(rest@, today as int, d as int),
{
    let i = match single_space_exec(rest) {
        Some(i) => i,
        None => {
            return Err(unsupported(expression));
        },
    };
    let len = rest.len();
    let count_text = copy_range(rest, 0, i);
    let unit = copy_range(rest, i + 1, len);
    let count = match parse_u32(&count_text) {
        Some(n) => {
            if n > 0 {
                n
            } else {
                let mut m = owned("`");
                push_str(&mut m, expression);
                push_str(&mut m, "`: N must be a positive integer, e.g. `in 3 days`");
                return Err(Error::InvalidArgument(m));
            }
        },
        None => {
            let mut m = owned("`");
            push_str(&mut m, expression);
            push_str(&mut m, "`: N must be a positive integer, e.g. `in 3 days`");
            return Err(Error::InvalidArgument(m));
        },
    };
    let date = if chars_eq_str(&unit, "day") || chars_eq_str(&unit, "days") {
        add_days_checked(today, count as u64)
    } else if chars_eq_str(&unit, "week") || chars_eq_str(&unit, "weeks") {
        add_days_checked(today, 7 * (count as u64))
    } else if chars_eq_str(&unit, "month") || chars_eq_str(&unit, "months") {
        add_months_checked(today, count)
    } else {
        return Err(unsupported(expression));
    };
    match date {
        Some(d) => Ok(d),
        None => Err(out_of_range(expression)),
    }
}

fn timestamp(r: Result<i32, Error>, t: TimeOfDay) -> (out: Result<Resolution, Error>)
    ensures
        match r {
            Ok(d) => out == Ok::<Resolution, Error>(Resolution::Timestamp { day: d, time_of_day: t }),
            Err(e) => out == Err::<Resolution, Error>(e),
        },
{
    match r {
        Ok(d) => Ok(Resolution::Timestamp { day: d, time_of_day: t }),
        Err(e) => Err(e),
    }
}

/// Resolves a shortcut expression against the reference day.
pub fn resolve(expression: &str, reference: &ReferenceDay, config: &DateConfig) -> (r: Result<
    Resolution,
    Error,
>)
    ensures
        match resolution(expression@, *reference, *config) {
            Ok(res) => r == Ok::<Resolution, Error>(res),
            Err(m) => rejects(r, m),
        },
        r matches Ok(Resolution::Timestamp { day, .. }) ==> resolved_day_law(
            normalize(expression@),
            *reference,
            day as int,
        ),
{
    let n = normalized(expression);
    let today = reference.today;
    let t = config.default_time;
    if chars_eq_str(&n, "clear") || chars_eq_str(&n, "none") || chars_eq_str(&n, "no due date")
        || chars_eq_str(&n, "unset") {
        return Ok(Resolution::Clear);
    }
    if chars_eq_str(&n, "today") {
        return Ok(Resolution::Timestamp { day: today, time_of_day: t });
    }
    if chars_eq_str(&n, "tomorrow") {
        return timestamp(add_days(today, 1), t);
    }
    if chars_eq_str(&n, "yesterday") {
        return match sub_days_checked(today, 1) {
            Some(d) => Ok(Resolution::Timestamp { day: d, time_of_day: t }),
            None => Err(out_of_range(expression)),
        };
    }
    if chars_eq_str(&n, "end of week") {
        return timestamp(upcoming(today, 6, &reference.end_of_day_time), config.end_of_day_time);
    }
    if let Some(w) = parse_weekday(&n) {
        return timestamp(upcoming(today, w, &reference.default_time), t);
    }
    let next = chars_of("next ");
    if starts_with_prefix(&n, &next) {
        let rest = copy_range(&n, next.len(), n.len());
        return match parse_weekday(&rest) {
            Some(w) => {
                proof {
                    lemma_days_until(today as int, w);
                }
                let ahead = days_until_exec(today, w);
                timestamp(
                    add_days(
                        today,
                        if ahead == 0 {
                            7
                        } else {
                            ahead
                        },
                    ),
                    t,
                )
            },
            None => Err(unsupported(expression)),
        };
    }
    let inp = chars_of("in ");
    if starts_with_prefix(&n, &inp) {
        let rest = copy_range(&n, inp.len(), n.len());
        return timestamp(in_relative_exec(expression, today, &rest), t);
    }
    let word = string_of(&n);
    if looks_like_date(word.as_str()) {
        return match parse_ymd(word.as_str()) {
            Ok(d) => Ok(Resolution::Timestamp { day: d, time_of_day: t }),
            Err(e) => {
                let mut m = owned("`");
                push_str(&mut m, expression);
                push_str(&mut m, "` is not a valid YYYY-MM-DD date: ");
                push_str(&mut m, e.as_str());
                Err(Error::InvalidArgument(m))
            },
        };
    }
    Err(unsupported(expression))
}

fn starts_with_prefix(s: &Vec<char>, p: &Vec<char>) -> (r: bool)
    ensures
        r == starts_with(s@, p@),
{
    let r = crate::text::starts_with_at(s, p, 0);
    proof {
        if r {
            assert(s@.subrange(0, p@.len() as int) == p@);
        }
    }
    r
}

// ----- Text ------------------------------------------------------------------

/// Two decimal digits of a number below 100.
pub open spec fn two_digits(n: nat) -> Seq<char> {
    seq![crate::text::digit_char(n / 10), crate::text::digit_char(n % 10)]
}

/// A time of day as `HH:MM`.
pub open spec fn time_of_day_text(t: TimeOfDay) -> Seq<char> {
    two_digits(t.hour as nat) + seq![':'] + two_digits(t.minute as nat)
}

fn push_two_digits(s: &mut String, n: u32)
    requires
        n < 100,
    ensures
        final(s)@ == old(s)@ + two_digits(n as nat),
{
    let tens = char_of_digit(n / 10);
    let ones = char_of_digit(n % 10);
    push_char(s, tens);
    push_char(s, ones);
}

fn char_of_digit(d: u32) -> (c: char)
    requires
        d < 10,
    ensures
        c == crate::text::digit_char(d as nat),
{
    if d == 0 {
        '0'
    } else if d == 1 {
        '1'
    } else if d == 2 {
        '2'
    } else if d == 3 {
        '3'
    } else if d == 4 {
        '4'
    } else if d == 5 {
        '5'
    } else if d == 6 {
        '6'
    } else if d == 7 {
        '7'
    } else if d == 8 {
        '8'
    } else {
        '9'
    }
}

/// Formats a time of day as `HH:MM`, as reported in the output of the
/// date tool.
pub fn format_time_of_day(t: TimeOfDay) -> (s: String)
    requires
        t.hour < 100,
        t.minute < 100,
    ensures
        s@ == time_of_day_text(t),
{
    let mut s = String::new();
    push_two_digits(&mut s, t.hour);
    push_char(&mut s, ':');
    push_two_digits(&mut s, t.minute);
    s
}

} // verus!
