//! The date grammar every date field shares.
//!
//! A token names a span of days relative to today:
//!
//! - `today`, `tomorrow`, `yesterday`, and `today+N` / `today-N`;
//! - a weekday (`tue`, `tuesday`): its next occurrence, today included;
//! - `this`, `last` or `next` followed by `week` (Sunday to Saturday),
//!   `month` or `year`;
//! - `YYYY-MM-DD`, or `MM-DD` in the current year.
//!
//! A query is one token, or two joined by `..` with either side left open.
//! Text is read case-insensitively with surrounding whitespace ignored.
//! While a date is still being typed, `YYYY`, `YYYY-MM` and `MM` name a month
//! without naming a day.

use vstd::prelude::*;
use crate::date::{CivilDate, MAX_YEAR, days_in, first_of, max_ordinal, ordinal, valid_ymd, week_column};
use crate::text::{is_word, occurs_at_exec, lower, lower_chars, occurs_at, slice_chars, trim, trim_chars};

verus! {

/// Whether a character is an ASCII digit.
pub open spec fn is_digit(c: char) -> bool {
    '0' <= c && c <= '9'
}

/// The value of a digit character.
pub open spec fn digit_val(c: char) -> int {
    c as int - '0' as int
}

/// Whether every character of `s` is a digit.
pub open spec fn all_digits(s: Seq<char>) -> bool {
    forall|i: int| 0 <= i < s.len() ==> is_digit(#[trigger] s[i])
}

/// The decimal value of a run of digits.
pub open spec fn num_val(s: Seq<char>) -> int
    decreases s.len(),
{
    if s.len() == 0 { 0 } else { num_val(s.drop_last()) * 10 + digit_val(s.last()) }
}

/// Whether `s[lo..hi]` is all digits.
pub open spec fn digits_in(s: Seq<char>, lo: int, hi: int) -> bool {
    all_digits(s.subrange(lo, hi))
}

/// The text as the grammar reads it: trimmed and in lower case.
pub open spec fn norm(s: Seq<char>) -> Seq<char> {
    lower(trim(s))
}

/// Whether an ordinal is inside the supported range.
pub open spec fn in_range(n: int) -> bool {
    0 <= n <= max_ordinal()
}

/// A span of days by the ordinals of its ends, when both are supported.
pub open spec fn span_of(a: int, b: int) -> Option<(int, int)> {
    if in_range(a) && in_range(b) { Some((a, b)) } else { None }
}

/// The days of a month.
pub open spec fn month_span(y: int, m: int) -> Option<(int, int)> {
    if 1 <= y <= MAX_YEAR && 1 <= m <= 12 {
        Some((ordinal((y, m, 1)), ordinal((y, m, days_in(y, m)))))
    } else {
        None
    }
}

/// The days of a year.
pub open spec fn year_span(y: int) -> Option<(int, int)> {
    if 1 <= y <= MAX_YEAR { Some((ordinal((y, 1, 1)), ordinal((y, 12, 31)))) } else { None }
}

/// Which weekday a name means, Sunday being 0, or -1 for none.
pub open spec fn weekday_index(w: Seq<char>) -> int {
    if w == "sun"@ || w == "sunday"@ { 0 }
    else if w == "mon"@ || w == "monday"@ { 1 }
    else if w == "tue"@ || w == "tuesday"@ { 2 }
    else if w == "wed"@ || w == "wednesday"@ { 3 }
    else if w == "thu"@ || w == "thursday"@ { 4 }
    else if w == "fri"@ || w == "friday"@ { 5 }
    else if w == "sat"@ || w == "saturday"@ { 6 }
    else { -1 }
}

/// The year, month and day a numeric date spells, before any validity check:
/// `YYYY-MM-DD`, or `MM-DD` in today's year.
pub open spec fn date_parts(s: Seq<char>, today: (int, int, int)) -> Option<(int, int, int)> {
    if s.len() == 10 && digits_in(s, 0, 4) && s[4] == '-' && digits_in(s, 5, 7) && s[7] == '-'
        && digits_in(s, 8, 10) {
        Some((num_val(s.subrange(0, 4)), num_val(s.subrange(5, 7)), num_val(s.subrange(8, 10))))
    } else if s.len() == 5 && digits_in(s, 0, 2) && s[2] == '-' && digits_in(s, 3, 5) {
        Some((today.0, num_val(s.subrange(0, 2)), num_val(s.subrange(3, 5))))
    } else {
        None
    }
}

/// Whether `s` is `today+N` or `today-N` with one to six digits.
pub open spec fn is_offset(s: Seq<char>) -> bool {
    7 <= s.len() <= 12 && s.take(5) == "today"@ && (s[5] == '+' || s[5] == '-')
        && digits_in(s, 6, s.len() as int)
}

/// The signed day count of an offset token.
pub open spec fn offset_days(s: Seq<char>) -> int {
    let n = num_val(s.subrange(6, s.len() as int));
    if s[5] == '-' { -n } else { n }
}

/// The span of days a normalized token names, as ordinals, relative to
/// `today`.
pub open spec fn token_span(s: Seq<char>, today: (int, int, int)) -> Option<(int, int)> {
    let o = ordinal(today);
    let col = week_column(today);
    let sunday = o - col;
    let (y, m) = (today.0, today.1);
    if s == "today"@ { span_of(o, o) }
    else if s == "tomorrow"@ { span_of(o + 1, o + 1) }
    else if s == "yesterday"@ { span_of(o - 1, o - 1) }
    else if s == "this week"@ { span_of(sunday, sunday + 6) }
    else if s == "last week"@ { span_of(sunday - 7, sunday - 1) }
    else if s == "next week"@ { span_of(sunday + 7, sunday + 13) }
    else if s == "this month"@ { month_span(y, m) }
    else if s == "last month"@ { if m == 1 { month_span(y - 1, 12) } else { month_span(y, m - 1) } }
    else if s == "next month"@ { if m == 12 { month_span(y + 1, 1) } else { month_span(y, m + 1) } }
    else if s == "this year"@ { year_span(y) }
    else if s == "last year"@ { year_span(y - 1) }
    else if s == "next year"@ { year_span(y + 1) }
    else if weekday_index(s) >= 0 {
        let d = o + (weekday_index(s) - col + 7) % 7;
        span_of(d, d)
    }
    else if is_offset(s) { span_of(o + offset_days(s), o + offset_days(s)) }
    else {
        match date_parts(s, today) {
            Some(t) => if valid_ymd(t) { Some((ordinal(t), ordinal(t))) } else { None },
            None => None,
        }
    }
}

/// Stepping forward from day `o` to the next day in column `k` (columns
/// counted as `week_column` counts them) lands in that column, within the
/// week ahead.
proof fn lemma_next_in_column(o: int, k: int)
    requires
        0 <= o,
        0 <= k < 7,
    ensures
        0 <= (k - (o + 1) % 7 + 7) % 7 < 7,
        (o + (k - (o + 1) % 7 + 7) % 7 + 1) % 7 == k,
{
    let c = (o + 1) % 7;
    let q = (o + 1) / 7;
    assert(o + 1 == 7 * q + c && 0 <= c < 7) by (nonlinear_arith)
        requires 0 <= o, c == (o + 1) % 7, q == (o + 1) / 7;
    let step = (k - c + 7) % 7;
    if k >= c {
        assert(step == k - c) by (nonlinear_arith) requires step == (k - c + 7) % 7, 0 <= k - c < 7;
        assert((o + step + 1) % 7 == k) by (nonlinear_arith)
            requires o + 1 == 7 * q + c, step == k - c, 0 <= k < 7;
    } else {
        assert(step == k - c + 7) by (nonlinear_arith) requires step == (k - c + 7) % 7, 0 < k - c + 7 < 7;
        assert((o + step + 1) % 7 == k) by (nonlinear_arith)
            requires o + 1 == 7 * q + c, step == k - c + 7, 0 <= k < 7;
    }
}

/// Whether `w` is one of the fourteen weekday names.
pub open spec fn is_weekday_name(w: Seq<char>) -> bool {
    w == "sun"@ || w == "sunday"@ || w == "mon"@ || w == "monday"@ || w == "tue"@ || w == "tuesday"@
        || w == "wed"@ || w == "wednesday"@ || w == "thu"@ || w == "thursday"@ || w == "fri"@
        || w == "friday"@ || w == "sat"@ || w == "saturday"@
}

/// A weekday name reaches the weekday step of the grammar, with the column
/// it names.
#[verifier::rlimit(100)]
proof fn lemma_weekday_token(w: Seq<char>, today: (int, int, int))
    requires
        is_weekday_name(w),
    ensures
        0 <= weekday_index(w) < 7,
        (w == "sun"@ || w == "sunday"@) ==> weekday_index(w) == 0,
        (w == "mon"@ || w == "monday"@) ==> weekday_index(w) == 1,
        (w == "tue"@ || w == "tuesday"@) ==> weekday_index(w) == 2,
        (w == "wed"@ || w == "wednesday"@) ==> weekday_index(w) == 3,
        (w == "thu"@ || w == "thursday"@) ==> weekday_index(w) == 4,
        (w == "fri"@ || w == "friday"@) ==> weekday_index(w) == 5,
        (w == "sat"@ || w == "saturday"@) ==> weekday_index(w) == 6,
        token_span(w, today) == ({
            let d = ordinal(today) + (weekday_index(w) - week_column(today) + 7) % 7;
            span_of(d, d)
        }),
{
    reveal_strlit("today");
    reveal_strlit("tomorrow");
    reveal_strlit("yesterday");
    reveal_strlit("this week");
    reveal_strlit("last week");
    reveal_strlit("next week");
    reveal_strlit("this month");
    reveal_strlit("last month");
    reveal_strlit("next month");
    reveal_strlit("this year");
    reveal_strlit("last year");
    reveal_strlit("next year");
    reveal_strlit("sun");
    reveal_strlit("sunday");
    reveal_strlit("mon");
    reveal_strlit("monday");
    reveal_strlit("tue");
    reveal_strlit("tuesday");
    reveal_strlit("wed");
    reveal_strlit("wednesday");
    reveal_strlit("thu");
    reveal_strlit("thursday");
    reveal_strlit("fri");
    reveal_strlit("friday");
    reveal_strlit("sat");
    reveal_strlit("saturday");
    assert("sun"@[0] == 's' && "sunday"@[0] == 's' && "sat"@[0] == 's' && "saturday"@[0] == 's');
    assert("mon"@[0] == 'm' && "monday"@[0] == 'm');
    assert("tue"@[1] == 'u' && "tuesday"@[1] == 'u' && "thu"@[1] == 'h' && "thursday"@[1] == 'h');
    assert("sun"@[1] == 'u' && "sunday"@[1] == 'u' && "sat"@[1] == 'a' && "saturday"@[1] == 'a');
    assert("wed"@[0] == 'w' && "wednesday"@[0] == 'w' && "fri"@[0] == 'f' && "friday"@[0] == 'f');
    assert("tue"@[0] == 't' && "tuesday"@[0] == 't' && "thu"@[0] == 't' && "thursday"@[0] == 't');
}

/// A weekday name means the next day, from today on, that falls on that
/// weekday: its day is within the week ahead of today and sits in that
/// weekday's own column of the week (Sunday 0, Monday 1, ..., Saturday 6),
/// so no two weekday names name the same day.
pub proof fn lemma_weekday_names_their_own_day(w: Seq<char>, today: (int, int, int), t: (int, int, int))
    requires
        valid_ymd(today),
        is_weekday_name(w),
    ensures
        ordinal(today) + 6 <= max_ordinal() ==> token_span(w, today) is Some,
        token_span(w, today) matches Some((a, b)) ==> a == b && ordinal(today) <= a < ordinal(today) + 7,
        token_span(w, today) matches Some((a, b)) ==> (valid_ymd(t) && ordinal(t) == a ==> week_column(t) == (a + 1) % 7),
        token_span(w, today) matches Some((a, b)) ==> ((w == "sun"@ || w == "sunday"@) ==> (a + 1) % 7 == 0),
        token_span(w, today) matches Some((a, b)) ==> ((w == "mon"@ || w == "monday"@) ==> (a + 1) % 7 == 1),
        token_span(w, today) matches Some((a, b)) ==> ((w == "tue"@ || w == "tuesday"@) ==> (a + 1) % 7 == 2),
        token_span(w, today) matches Some((a, b)) ==> ((w == "wed"@ || w == "wednesday"@) ==> (a + 1) % 7 == 3),
        token_span(w, today) matches Some((a, b)) ==> ((w == "thu"@ || w == "thursday"@) ==> (a + 1) % 7 == 4),
        token_span(w, today) matches Some((a, b)) ==> ((w == "fri"@ || w == "friday"@) ==> (a + 1) % 7 == 5),
        token_span(w, today) matches Some((a, b)) ==> ((w == "sat"@ || w == "saturday"@) ==> (a + 1) % 7 == 6),

{
    lemma_weekday_token(w, today);
    let o = ordinal(today);
    crate::date::lemma_ordinal_range(today);
    lemma_next_in_column(o, weekday_index(w));
}

/// The span a piece of text names.
pub open spec fn text_span(text: Seq<char>, today: (int, int, int)) -> Option<(int, int)> {
    token_span(norm(text), today)
}

/// The month a half-typed date points at, before it names a day:
/// `YYYY`, `YYYY-MM`, or `MM` in today's year.
pub open spec fn partial_month(s: Seq<char>, today: (int, int, int)) -> Option<(int, int)> {
    if s.len() == 4 && digits_in(s, 0, 4) && 1 <= num_val(s) {
        Some((num_val(s), 1))
    } else if s.len() == 7 && digits_in(s, 0, 4) && s[4] == '-' && digits_in(s, 5, 7)
        && 1 <= num_val(s.subrange(0, 4)) && 1 <= num_val(s.subrange(5, 7)) <= 12 {
        Some((num_val(s.subrange(0, 4)), num_val(s.subrange(5, 7))))
    } else if s.len() == 2 && digits_in(s, 0, 2) && 1 <= num_val(s) <= 12 {
        Some((today.0, num_val(s)))
    } else {
        None
    }
}

/// The valid date with a given ordinal.
pub open spec fn date_of(n: int) -> (int, int, int) {
    choose|t: (int, int, int)| valid_ymd(t) && ordinal(t) == n
}

/// A valid date is the date of its own ordinal.
pub proof fn lemma_date_of(d: (int, int, int))
    requires
        valid_ymd(d),
    ensures
        date_of(ordinal(d)) == d,
{
    let t = date_of(ordinal(d));
    assert(valid_ymd(d) && ordinal(d) == ordinal(d));
    crate::date::lemma_ordinal_injective(t, d);
}

/// A run of days, first and last included.
#[derive(Clone, Copy, Debug, PartialEq, Eq, Structural)]
pub struct DateSpan {
    pub start: CivilDate,
    pub end: CivilDate,
}

impl DateSpan {
    pub fn start(&self) -> (r: CivilDate)
        ensures
            r == self.start,
    {
        self.start
    }

    pub fn end(&self) -> (r: CivilDate)
        ensures
            r == self.end,
    {
        self.end
    }

    /// Whether the span is a single day.
    pub fn is_day(&self) -> (r: bool)
        ensures
            r == (ordinal(self.start@) == ordinal(self.end@)),
    {
        self.start.ordinal() == self.end.ordinal()
    }
}

/// Whether a date span agrees with the span the grammar assigns.
pub open spec fn span_is(r: Option<DateSpan>, s: Option<(int, int)>) -> bool {
    &&& (r is Some <==> s is Some)
    &&& r matches Some(sp) ==> ordinal(sp.start@) == s.unwrap().0 && ordinal(sp.end@) == s.unwrap().1
}

/// What a half-typed date says so far: the month it points at, and the day
/// once it names one.
#[derive(Clone, Copy, Debug, PartialEq, Eq, Structural)]
pub struct PartialDate {
    pub month: CivilDate,
    pub day: Option<CivilDate>,
}

/// What a half-typed date says, by the grammar: the month, and the ordinal
/// of the first day when a whole span is named.
pub open spec fn partial_is(r: Option<PartialDate>, text: Seq<char>, today: (int, int, int)) -> bool {
    let s = norm(text);
    match token_span(s, today) {
        Some((a, b)) => r matches Some(p) && p.day matches Some(d) && ordinal(d@) == a
            && p.month@ == first_of(d@),
        None => match partial_month(s, today) {
            Some((y, m)) => r matches Some(p) && p.day is None && p.month@ == (y, m, 1int),
            None => r is None,
        },
    }
}

/// A date filter: one day, or a range with either end open.
#[derive(Clone, Copy, Debug, PartialEq, Eq, Structural)]
pub enum DateQuery {
    Exact(CivilDate),
    Range { start: Option<CivilDate>, end: Option<CivilDate> },
}

/// Where `needle` first occurs in `hay` at or after `i`, or -1.
pub open spec fn find_from(hay: Seq<char>, needle: Seq<char>, i: int) -> int
    decreases hay.len() + 1 - i,
{
    if i < 0 || i + needle.len() > hay.len() {
        -1
    } else if occurs_at(hay, needle, i) {
        i
    } else {
        find_from(hay, needle, i + 1)
    }
}

/// Where `needle` first occurs in `hay`, or -1.
pub open spec fn find_seq(hay: Seq<char>, needle: Seq<char>) -> int {
    find_from(hay, needle, 0)
}

/// The separator between the two ends of a range.
pub open spec fn range_sep() -> Seq<char> {
    seq!['.', '.']
}

/// One end of a range: absent when blank, the span otherwise, and a failure
/// (`None`) when it names nothing.
pub open spec fn range_end(text: Seq<char>, today: (int, int, int)) -> Option<Option<(int, int)>> {
    let s = norm(text);
    if s.len() == 0 { Some(None) } else {
        match token_span(s, today) {
            Some(sp) => Some(Some(sp)),
            None => None,
        }
    }
}

/// The query a piece of text is, as ordinals: `Exact(d)` is `(d, d, true,
/// true, true)`; a range is `(start, end, has_start, has_end, false)`.
pub open spec fn query_of(text: Seq<char>, today: (int, int, int)) -> Option<(int, int, bool, bool, bool)> {
    let s = norm(text);
    let i = find_seq(s, range_sep());
    if s.len() == 0 {
        None
    } else if i >= 0 {
        match (range_end(s.take(i), today), range_end(s.skip(i + 2), today)) {
            (Some(a), Some(b)) => if a is None && b is None { None } else {
                Some((
                    if a is Some { a.unwrap().0 } else { 0 },
                    if b is Some { b.unwrap().1 } else { 0 },
                    a is Some,
                    b is Some,
                    false,
                ))
            },
            _ => None,
        }
    } else {
        match token_span(s, today) {
            Some((a, b)) => if a == b { Some((a, a, true, true, true)) } else { Some((a, b, true, true, false)) },
            None => None,
        }
    }
}

/// Whether a parsed query agrees with the grammar.
pub open spec fn query_is(r: Option<DateQuery>, q: Option<(int, int, bool, bool, bool)>) -> bool {
    match q {
        None => r is None,
        Some((a, b, hs, he, exact)) => match r {
            Some(DateQuery::Exact(d)) => exact && ordinal(d@) == a,
            Some(DateQuery::Range { start, end }) => !exact
                && (start is Some <==> hs) && (end is Some <==> he)
                && (start matches Some(d) ==> ordinal(d@) == a)
                && (end matches Some(d) ==> ordinal(d@) == b),
            None => false,
        },
    }
}

/// Whether a day (by ordinal) satisfies a query: equal to an exact day, or
/// inside a range whose open ends do not bound it.
pub open spec fn query_admits(q: (int, int, bool, bool, bool), day: int) -> bool {
    if q.4 { day == q.0 } else { (!q.2 || q.0 <= day) && (!q.3 || day <= q.1) }
}

proof fn lemma_num_val_push(s: Seq<char>, c: char)
    ensures
        num_val(s.push(c)) == num_val(s) * 10 + digit_val(c),
{
    assert(s.push(c).drop_last() == s);
}

/// The value of the digits `s[lo..hi]`.
fn digits_value(s: &Vec<char>, lo: usize, hi: usize) -> (r: u32)
    requires
        lo <= hi <= s.len(),
        hi - lo <= 6,
        digits_in(s@, lo as int, hi as int),
    ensures
        r == num_val(s@.subrange(lo as int, hi as int)),
        hi - lo <= 4 ==> r < 10000,
        hi - lo <= 2 ==> r < 100,
{
    let mut v: u32 = 0;
    let mut i = lo;
    while i < hi
        invariant
            lo <= i <= hi <= s.len(),
            hi - lo <= 6,
            digits_in(s@, lo as int, hi as int),
            v == num_val(s@.subrange(lo as int, i as int)),
            v < if i - lo == 0 { 1int } else if i - lo == 1 { 10 } else if i - lo == 2 { 100 }
                else if i - lo == 3 { 1000 } else if i - lo == 4 { 10000 } else if i - lo == 5 { 100000 }
                else { 1000000 },
        decreases hi - i,
    {
        let c = s[i];
        assert(s@.subrange(lo as int, hi as int)[i - lo] == c);
        assert(is_digit(c));
        proof {
            lemma_num_val_push(s@.subrange(lo as int, i as int), c);
            assert(s@.subrange(lo as int, i + 1) == s@.subrange(lo as int, i as int).push(c));
        }
        v = v * 10 + (c as u32 - '0' as u32);
        i += 1;
    }
    v
}

/// Whether `s[lo..hi]` is all digits.
fn digits_in_exec(s: &Vec<char>, lo: usize, hi: usize) -> (r: bool)
    requires
        lo <= hi <= s.len(),
    ensures
        r == digits_in(s@, lo as int, hi as int),
{
    let mut i = lo;
    while i < hi
        invariant
            lo <= i <= hi <= s.len(),
            forall|j: int| lo <= j < i ==> is_digit(#[trigger] s@[j]),
        decreases hi - i,
    {
        if !('0' <= s[i] && s[i] <= '9') {
            assert(s@.subrange(lo as int, hi as int)[i - lo] == s@[i as int]);
            return false;
        }
        i += 1;
    }
    assert forall|j: int| 0 <= j < hi - lo implies is_digit(#[trigger] s@.subrange(lo as int, hi as int)[j]) by {
        assert(s@.subrange(lo as int, hi as int)[j] == s@[lo + j]);
    }
    true
}

/// The text read the way the grammar reads it.
pub fn normalize(text: &Vec<char>) -> (r: Vec<char>)
    ensures
        r@ == norm(text@),
{
    let t = trim_chars(text);
    lower_chars(&t)
}

/// Which weekday a name means, or `None`.
fn weekday_of(s: &Vec<char>) -> (r: Option<u32>)
    ensures
        r matches Some(k) ==> k == weekday_index(s@) && k < 7,
        r is None ==> weekday_index(s@) < 0,
{
    if is_word(s, "sun") || is_word(s, "sunday") { Some(0) }
    else if is_word(s, "mon") || is_word(s, "monday") { Some(1) }
    else if is_word(s, "tue") || is_word(s, "tuesday") { Some(2) }
    else if is_word(s, "wed") || is_word(s, "wednesday") { Some(3) }
    else if is_word(s, "thu") || is_word(s, "thursday") { Some(4) }
    else if is_word(s, "fri") || is_word(s, "friday") { Some(5) }
    else if is_word(s, "sat") || is_word(s, "saturday") { Some(6) }
    else { None }
}

/// A span by the ordinals of its ends, when both are supported.
fn span_exec(a: i64, b: i64) -> (r: Option<DateSpan>)
    ensures
        span_is(r, span_of(a as int, b as int)),
{
    let max = CivilDate::from_ordinal(0).add_days(i64::MAX).ordinal();
    if 0 <= a && a <= max && 0 <= b && b <= max {
        Some(DateSpan { start: CivilDate::from_ordinal(a), end: CivilDate::from_ordinal(b) })
    } else {
        None
    }
}

/// The days of a month, when the month is supported.
fn month_span_exec(y: i64, m: i64) -> (r: Option<DateSpan>)
    ensures
        span_is(r, month_span(y as int, m as int)),
{
    if 1 <= y && y <= MAX_YEAR as i64 && 1 <= m && m <= 12 {
        let first = CivilDate::new(y as i32, m as u32, 1).unwrap();
        let last = first.with_day(31);
        Some(DateSpan { start: first, end: last })
    } else {
        None
    }
}

/// The days of a year, when the year is supported.
fn year_span_exec(y: i64) -> (r: Option<DateSpan>)
    ensures
        span_is(r, year_span(y as int)),
{
    if 1 <= y && y <= MAX_YEAR as i64 {
        let first = CivilDate::new(y as i32, 1, 1).unwrap();
        let last = CivilDate::new(y as i32, 12, 31).unwrap();
        Some(DateSpan { start: first, end: last })
    } else {
        None
    }
}

/// The span a normalized token names.
pub fn token_span_exec(s: &Vec<char>, today: CivilDate) -> (r: Option<DateSpan>)
    ensures
        span_is(r, token_span(s@, today@)),
{
    today.valid();
    let o = today.ordinal();
    let col = today.calendar_column() as i64;
    let sunday = o - col;
    let y = today.year() as i64;
    let m = today.month() as i64;
    if is_word(s, "today") { span_exec(o, o) }
    else if is_word(s, "tomorrow") { span_exec(o + 1, o + 1) }
    else if is_word(s, "yesterday") { span_exec(o - 1, o - 1) }
    else if is_word(s, "this week") { span_exec(sunday, sunday + 6) }
    else if is_word(s, "last week") { span_exec(sunday - 7, sunday - 1) }
    else if is_word(s, "next week") { span_exec(sunday + 7, sunday + 13) }
    else if is_word(s, "this month") { month_span_exec(y, m) }
    else if is_word(s, "last month") { if m == 1 { month_span_exec(y - 1, 12) } else { month_span_exec(y, m - 1) } }
    else if is_word(s, "next month") { if m == 12 { month_span_exec(y + 1, 1) } else { month_span_exec(y, m + 1) } }
    else if is_word(s, "this year") { year_span_exec(y) }
    else if is_word(s, "last year") { year_span_exec(y - 1) }
    else if is_word(s, "next year") { year_span_exec(y + 1) }
    else if let Some(k) = weekday_of(s) {
        let d = o + (k as i64 - col + 7) % 7;
        span_exec(d, d)
    } else if 7 <= s.len() && s.len() <= 12 && is_word(&slice_chars(s, 0, 5), "today")
        && (s[5] == '+' || s[5] == '-') && digits_in_exec(s, 6, s.len()) {
        proof { assert(s@.subrange(0, 5) == s@.take(5)); }
        let n = digits_value(s, 6, s.len()) as i64;
        let d = if s[5] == '-' { o - n } else { o + n };
        span_exec(d, d)
    } else {
        proof {
            if 7 <= s@.len() <= 12 {
                assert(s@.subrange(0, 5) == s@.take(5));
            }
        }
        let parts: Option<(i64, u32, u32)> = if s.len() == 10 && digits_in_exec(s, 0, 4) && s[4] == '-'
            && digits_in_exec(s, 5, 7) && s[7] == '-' && digits_in_exec(s, 8, 10) {
            Some((digits_value(s, 0, 4) as i64, digits_value(s, 5, 7), digits_value(s, 8, 10)))
        } else if s.len() == 5 && digits_in_exec(s, 0, 2) && s[2] == '-' && digits_in_exec(s, 3, 5) {
            Some((y, digits_value(s, 0, 2), digits_value(s, 3, 5)))
        } else {
            None
        };
        match parts {
            Some((py, pm, pd)) => {
                if py > MAX_YEAR as i64 {
                    None
                } else {
                    match CivilDate::new(py as i32, pm, pd) {
                        Some(d) => {
                            let od = d.ordinal();
                            Some(DateSpan { start: d, end: d })
                        },
                        None => None,
                    }
                }
            },
            None => None,
        }
    }
}

/// The span a piece of text names, relative to `today`.
pub fn parse_span(text: &Vec<char>, today: CivilDate) -> (r: Option<DateSpan>)
    ensures
        span_is(r, text_span(text@, today@)),
{
    let s = normalize(text);
    token_span_exec(&s, today)
}

/// Where `needle` first occurs in `hay`, or `None`.
pub fn find_chars(hay: &Vec<char>, needle: &Vec<char>) -> (r: Option<usize>)
    ensures
        r matches Some(i) ==> i == find_seq(hay@, needle@) && occurs_at(hay@, needle@, i as int),
        r is None ==> find_seq(hay@, needle@) == -1,
{
    if needle.len() > hay.len() {
        return None;
    }
    let last = hay.len() - needle.len();
    let mut i: usize = 0;
    loop
        invariant
            needle.len() <= hay.len(),
            last == hay.len() - needle.len(),
            i <= last,
            find_seq(hay@, needle@) == find_from(hay@, needle@, i as int),
        decreases last - i,
    {
        if occurs_at_exec(hay, needle, i) {
            return Some(i);
        }
        if i == last {
            assert(find_from(hay@, needle@, i + 1) == -1);
            return None;
        }
        i += 1;
    }
}

/// What a half-typed date says so far.
pub fn parse_partial(text: &Vec<char>, today: CivilDate) -> (r: Option<PartialDate>)
    ensures
        partial_is(r, text@, today@),
{
    today.valid();
    let s = normalize(text);
    match token_span_exec(&s, today) {
        Some(span) => {
            let d = span.start();
            Some(PartialDate { month: d.first_of_month(), day: Some(d) })
        },
        None => {
            if s.len() == 4 && digits_in_exec(&s, 0, 4) && digits_value(&s, 0, 4) >= 1 {
                proof { assert(s@.subrange(0, 4) == s@); }
                let y = digits_value(&s, 0, 4);
                Some(PartialDate { month: CivilDate::new(y as i32, 1, 1).unwrap(), day: None })
            } else if s.len() == 7 && digits_in_exec(&s, 0, 4) && s[4] == '-' && digits_in_exec(&s, 5, 7)
                && digits_value(&s, 0, 4) >= 1 && digits_value(&s, 5, 7) >= 1 && digits_value(&s, 5, 7) <= 12 {
                let y = digits_value(&s, 0, 4);
                let m = digits_value(&s, 5, 7);
                Some(PartialDate { month: CivilDate::new(y as i32, m, 1).unwrap(), day: None })
            } else if s.len() == 2 && digits_in_exec(&s, 0, 2) && digits_value(&s, 0, 2) >= 1
                && digits_value(&s, 0, 2) <= 12 {
                proof { assert(s@.subrange(0, 2) == s@); }
                let m = digits_value(&s, 0, 2);
                Some(PartialDate { month: CivilDate::new(today.year(), m, 1).unwrap(), day: None })
            } else {
                proof {
                    if s@.len() == 4 { assert(s@.subrange(0, 4) == s@); }
                    if s@.len() == 2 { assert(s@.subrange(0, 2) == s@); }
                }
                None
            }
        },
    }
}

/// One end of a range: `Ok(None)` when blank, `Ok(Some(span))` when it
/// names one, `Err(())` when it names nothing.
fn range_end_exec(text: &Vec<char>, today: CivilDate) -> (r: Result<Option<DateSpan>, ()>)
    ensures
        match range_end(text@, today@) {
            None => r is Err,
            Some(None) => r matches Ok(None),
            Some(Some(sp)) => r matches Ok(Some(x)) && ordinal(x.start@) == sp.0 && ordinal(x.end@) == sp.1,
        },
{
    let s = normalize(text);
    if s.len() == 0 {
        Ok(None)
    } else {
        match token_span_exec(&s, today) {
            Some(sp) => Ok(Some(sp)),
            None => Err(()),
        }
    }
}

impl DateQuery {
    /// Reads a query, or `None` when the text is empty or names nothing.
    pub fn parse(text: &Vec<char>, today: CivilDate) -> (r: Option<DateQuery>)
        ensures
            query_is(r, query_of(text@, today@)),
    {
        let s = normalize(text);
        if s.len() == 0 {
            return None;
        }
        let sep: Vec<char> = vec!['.', '.'];
        assert(sep@ == range_sep());
        match find_chars(&s, &sep) {
            Some(i) => {
                let left = slice_chars(&s, 0, i);
                let right = slice_chars(&s, i + 2, s.len());
                assert(left@ == s@.take(i as int));
                assert(right@ == s@.skip(i + 2));
                match (range_end_exec(&left, today), range_end_exec(&right, today)) {
                    (Ok(a), Ok(b)) => {
                        if a.is_none() && b.is_none() {
                            None
                        } else {
                            Some(DateQuery::Range {
                                start: match a { Some(sp) => Some(sp.start()), None => None },
                                end: match b { Some(sp) => Some(sp.end()), None => None },
                            })
                        }
                    },
                    _ => None,
                }
            },
            None => {
                match token_span_exec(&s, today) {
                    Some(sp) => {
                        if sp.is_day() {
                            Some(DateQuery::Exact(sp.start()))
                        } else {
                            Some(DateQuery::Range { start: Some(sp.start()), end: Some(sp.end()) })
                        }
                    },
                    None => None,
                }
            },
        }
    }

    /// Whether a day satisfies the query.
    pub fn matches(&self, day: CivilDate) -> (r: bool)
        ensures
            match *self {
                DateQuery::Exact(d) => r == (ordinal(day@) == ordinal(d@)),
                DateQuery::Range { start, end } => r == ((start matches Some(a) ==> ordinal(a@) <= ordinal(day@))
                    && (end matches Some(b) ==> ordinal(day@) <= ordinal(b@))),
            },
    {
        match self {
            DateQuery::Exact(d) => d.ordinal() == day.ordinal(),
            DateQuery::Range { start, end } => {
                let after = match start { Some(a) => a.ordinal() <= day.ordinal(), None => true };
                let before = match end { Some(b) => day.ordinal() <= b.ordinal(), None => true };
                after && before
            },
        }
    }
}

/// Ten to the power `w`.
pub open spec fn pow10(w: nat) -> int
    decreases w,
{
    if w == 0 { 1 } else { 10 * pow10((w - 1) as nat) }
}

/// A number written with `w` digits reads back as itself.
proof fn lemma_padded_reads_back(n: int, w: nat)
    requires
        0 <= n < pow10(w),
    ensures
        crate::date::padded(n, w).len() == w,
        all_digits(crate::date::padded(n, w)),
        num_val(crate::date::padded(n, w)) == n,
    decreases w,
{
    if w > 0 {
        lemma_padded_reads_back(n / 10, (w - 1) as nat);
        let s = crate::date::padded(n / 10, (w - 1) as nat);
        let c = crate::date::digit_char(n % 10);
        assert(s.push(c).drop_last() == s);
        assert(is_digit(c) && digit_val(c) == n % 10);
        assert(forall|i: int| 0 <= i < s.len() ==> s.push(c)[i] == s[i]);
    }
}

proof fn lemma_find_absent(hay: Seq<char>, needle: Seq<char>, i: int)
    requires
        needle.len() > 0,
        0 <= i,
        forall|j: int| 0 <= j < hay.len() ==> hay[j] != needle[0],
    ensures
        find_from(hay, needle, i) == -1,
    decreases hay.len() + 1 - i,
{
    if i + needle.len() <= hay.len() {
        assert(hay.subrange(i, i + needle.len())[0] == hay[i]);
        lemma_find_absent(hay, needle, i + 1);
    }
}

/// A day written out as `YYYY-MM-DD` reads back as exactly that day,
/// whatever day today is: what the picker writes into a field is what the
/// filter then reads.
pub proof fn lemma_iso_reads_back(d: (int, int, int), today: (int, int, int))
    requires
        valid_ymd(d),
    ensures
        text_span(crate::date::iso_chars(d), today) == Some((ordinal(d), ordinal(d))),
        query_of(crate::date::iso_chars(d), today) == Some((ordinal(d), ordinal(d), true, true, true)),
{
    reveal_with_fuel(pow10, 5);
    lemma_padded_reads_back(d.0, 4);
    lemma_padded_reads_back(d.1, 2);
    lemma_padded_reads_back(d.2, 2);
    crate::date::lemma_ordinal_range(d);
    let y = crate::date::padded(d.0, 4);
    let m = crate::date::padded(d.1, 2);
    let dd = crate::date::padded(d.2, 2);
    let s = crate::date::iso_chars(d);
    assert(s.len() == 10);
    assert(s.subrange(0, 4) == y);
    assert(s.subrange(5, 7) == m);
    assert(s.subrange(8, 10) == dd);
    assert(s[4] == '-' && s[7] == '-');
    assert forall|i: int| 0 <= i < 10 implies (is_digit(#[trigger] s[i]) || s[i] == '-') && s[i] != '.' by {
        if i < 4 { assert(s[i] == y[i]); }
        else if 5 <= i < 7 { assert(s[i] == m[i - 5]); }
        else if 8 <= i < 10 { assert(s[i] == dd[i - 8]); }
    }
    assert(is_digit(s[0]) && is_digit(s[9]));
    assert(crate::text::leading_spaces(s) == 0);
    assert(crate::text::trailing_spaces(s) == 0);
    assert(trim(s) == s);
    assert(lower(s) == s);
    assert(norm(s) == s);
    reveal_strlit("today");
    reveal_strlit("tomorrow");
    reveal_strlit("yesterday");
    reveal_strlit("this week");
    reveal_strlit("last week");
    reveal_strlit("next week");
    reveal_strlit("this month");
    reveal_strlit("last month");
    reveal_strlit("next month");
    reveal_strlit("this year");
    reveal_strlit("last year");
    reveal_strlit("next year");
    reveal_strlit("sun");
    reveal_strlit("sunday");
    reveal_strlit("mon");
    reveal_strlit("monday");
    reveal_strlit("tue");
    reveal_strlit("tuesday");
    reveal_strlit("wed");
    reveal_strlit("wednesday");
    reveal_strlit("thu");
    reveal_strlit("thursday");
    reveal_strlit("fri");
    reveal_strlit("friday");
    reveal_strlit("sat");
    reveal_strlit("saturday");
    assert(s.take(5)[0] == s[0]);
    assert(!is_offset(s));
    assert(weekday_index(s) == -1);
    assert(date_parts(s, today) == Some(d));
    lemma_find_absent(s, range_sep(), 0);
}

} // verus!
