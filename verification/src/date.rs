//! Calendar dates on the proleptic Gregorian calendar.
//!
//! A date is a year, a month and a day; its arithmetic goes through the
//! *ordinal*, the number of days since 0001-01-01, which is what makes adding
//! days, comparing dates and laying out weeks exact.

use vstd::prelude::*;
use crate::text::push_char;

verus! {

/// The last year a date may carry.
pub const MAX_YEAR: i32 = 9999;

/// Days from 0001-01-01 to 1970-01-01.
pub const EPOCH_ORDINAL: i64 = 719162;

/// Whether `y` is a leap year.
pub open spec fn is_leap(y: int) -> bool {
    y % 4 == 0 && (y % 100 != 0 || y % 400 == 0)
}

/// The number of days in month `m` of year `y`.
pub open spec fn days_in(y: int, m: int) -> int {
    if m == 2 {
        if is_leap(y) { 29 } else { 28 }
    } else if m == 4 || m == 6 || m == 9 || m == 11 {
        30
    } else {
        31
    }
}

/// Whether a year, month and day name a real date in the supported range.
pub open spec fn valid_ymd(t: (int, int, int)) -> bool {
    &&& 1 <= t.0 <= MAX_YEAR
    &&& 1 <= t.1 <= 12
    &&& 1 <= t.2 <= days_in(t.0, t.1)
}

/// Days from 0001-01-01 to the first of January of year `y`.
pub open spec fn days_before_year(y: int) -> int {
    365 * (y - 1) + (y - 1) / 4 - (y - 1) / 100 + (y - 1) / 400
}

/// Days from the first of January of year `y` to the first of month `m`.
pub open spec fn days_before_month(y: int, m: int) -> int {
    let leap_day: int = if m > 2 && is_leap(y) { 1 } else { 0 };
    let base: int = if m <= 1 { 0 }
        else if m == 2 { 31 }
        else if m == 3 { 59 }
        else if m == 4 { 90 }
        else if m == 5 { 120 }
        else if m == 6 { 151 }
        else if m == 7 { 181 }
        else if m == 8 { 212 }
        else if m == 9 { 243 }
        else if m == 10 { 273 }
        else if m == 11 { 304 }
        else if m == 12 { 334 }
        else { 365 };
    base + leap_day
}

/// Days from 0001-01-01 to the date.
pub open spec fn ordinal(t: (int, int, int)) -> int {
    days_before_year(t.0) + days_before_month(t.0, t.1) + t.2 - 1
}

/// The ordinal of 9999-12-31, the last supported date.
pub open spec fn max_ordinal() -> int {
    ordinal((MAX_YEAR as int, 12, 31))
}

/// An ordinal pulled into the supported range.
pub open spec fn clamp_ordinal(n: int) -> int {
    if n < 0 { 0 } else if n > max_ordinal() { max_ordinal() } else { n }
}

/// The column of a date in a week that starts on Sunday (0) and ends on
/// Saturday (6). 0001-01-01 was a Monday.
pub open spec fn week_column(t: (int, int, int)) -> int {
    (ordinal(t) + 1) % 7
}

/// The first day of the date's month.
pub open spec fn first_of(t: (int, int, int)) -> (int, int, int) {
    (t.0, t.1, 1)
}

/// A month index (`year * 12 + month - 1`) back as a year and a month.
pub open spec fn month_from_index(i: int) -> (int, int) {
    (i / 12, i % 12 + 1)
}

/// The date `delta` months on, with the day clamped to the target month and
/// the month clamped to the supported years.
pub open spec fn spec_add_months(t: (int, int, int), delta: int) -> (int, int, int) {
    let raw = t.0 * 12 + (t.1 - 1) + delta;
    let idx = if raw < 12 { 12 } else if raw > MAX_YEAR * 12 + 11 { MAX_YEAR * 12 + 11 } else { raw };
    let (y, m) = month_from_index(idx);
    (y, m, if t.2 > days_in(y, m) { days_in(y, m) } else { t.2 })
}

/// A digit as its character.
pub open spec fn digit_char(n: int) -> char {
    if n == 0 { '0' } else if n == 1 { '1' } else if n == 2 { '2' } else if n == 3 { '3' }
    else if n == 4 { '4' } else if n == 5 { '5' } else if n == 6 { '6' } else if n == 7 { '7' }
    else if n == 8 { '8' } else { '9' }
}

/// `n` written with exactly `width` decimal digits, zero padded on the left.
pub open spec fn padded(n: int, width: nat) -> Seq<char>
    decreases width,
{
    if width == 0 {
        Seq::empty()
    } else {
        padded(n / 10, (width - 1) as nat).push(digit_char(n % 10))
    }
}

/// The ISO 8601 spelling of a date, `YYYY-MM-DD`.
pub open spec fn iso_chars(t: (int, int, int)) -> Seq<char> {
    padded(t.0, 4) + seq!['-'] + padded(t.1, 2) + seq!['-'] + padded(t.2, 2)
}

/// A day on the calendar: a year, a month and a day of that month.
#[derive(Clone, Copy, Debug, PartialEq, Eq, PartialOrd, Ord, Hash, Structural)]
pub struct CivilDate {
    year: i32,
    month: u32,
    day: u32,
}

impl View for CivilDate {
    type V = (int, int, int);

    closed spec fn view(&self) -> (int, int, int) {
        (self.year as int, self.month as int, self.day as int)
    }
}

proof fn lemma_days_before_year_step(y: int)
    requires
        y >= 1,
    ensures
        days_before_year(y + 1) == days_before_year(y) + if is_leap(y) { 366int } else { 365int },
{
}

proof fn lemma_days_before_year_bounds(y: int)
    requires
        y >= 1,
    ensures
        365 * (y - 1) <= days_before_year(y) <= 366 * (y - 1),
{
}

proof fn lemma_days_before_year_mono(a: int, b: int)
    requires
        1 <= a <= b,
    ensures
        days_before_year(a) + 365 * (b - a) <= days_before_year(b),
    decreases b - a,
{
    if a < b {
        lemma_days_before_year_mono(a, b - 1);
        lemma_days_before_year_step(b - 1);
    }
}

proof fn lemma_month_step(y: int, m: int)
    requires
        1 <= m <= 12,
    ensures
        days_before_month(y, m + 1) == days_before_month(y, m) + days_in(y, m),
{
}

/// Valid dates are ordered by their ordinals and no two share one.
pub proof fn lemma_ordinal_range(t: (int, int, int))
    requires
        valid_ymd(t),
    ensures
        days_before_year(t.0) <= ordinal(t) < days_before_year(t.0 + 1),
        0 <= ordinal(t) <= max_ordinal(),
{
    lemma_days_before_year_step(t.0);
    lemma_month_step(t.0, t.1);
    assert(days_before_month(t.0, t.1 + 1) <= days_before_month(t.0, 13));
    lemma_days_before_year_mono(t.0, MAX_YEAR as int);
    lemma_days_before_year_bounds(t.0);
}

/// Two valid dates with the same ordinal are the same date.
pub proof fn lemma_ordinal_injective(a: (int, int, int), b: (int, int, int))
    requires
        valid_ymd(a),
        valid_ymd(b),
        ordinal(a) == ordinal(b),
    ensures
        a == b,
{
    lemma_ordinal_range(a);
    lemma_ordinal_range(b);
    if a.0 < b.0 {
        lemma_days_before_year_mono(a.0 + 1, b.0);
    } else if b.0 < a.0 {
        lemma_days_before_year_mono(b.0 + 1, a.0);
    }
    assert(a.0 == b.0);
    if a.1 < b.1 {
        lemma_month_step(a.0, a.1);
        assert(days_before_month(a.0, a.1 + 1) <= days_before_month(a.0, b.1));
    } else if b.1 < a.1 {
        lemma_month_step(b.0, b.1);
        assert(days_before_month(b.0, b.1 + 1) <= days_before_month(b.0, a.1));
    }
}

/// The exact count of days before January 1 of a supported year.
fn days_before_year_exec(y: i32) -> (r: i64)
    requires
        1 <= y <= MAX_YEAR + 1,
    ensures
        r == days_before_year(y as int),
{
    let p: u64 = (y - 1) as u64;
    (365 * p + p / 4 - p / 100 + p / 400) as i64
}

fn days_before_month_exec(y: i32, m: u32) -> (r: i64)
    requires
        1 <= y <= MAX_YEAR,
        1 <= m <= 13,
    ensures
        r == days_before_month(y as int, m as int),
{
    let base: i64 = if m <= 1 { 0 }
        else if m == 2 { 31 }
        else if m == 3 { 59 }
        else if m == 4 { 90 }
        else if m == 5 { 120 }
        else if m == 6 { 151 }
        else if m == 7 { 181 }
        else if m == 8 { 212 }
        else if m == 9 { 243 }
        else if m == 10 { 273 }
        else if m == 11 { 304 }
        else if m == 12 { 334 }
        else { 365 };
    if m > 2 && is_leap_year(y) { base + 1 } else { base }
}

/// Whether a year is a leap year.
pub fn is_leap_year(y: i32) -> (r: bool)
    ensures
        r == is_leap(y as int),
{
    y % 4 == 0 && (y % 100 != 0 || y % 400 == 0)
}

/// The number of days in a month of a year.
pub fn days_in_month_of(y: i32, m: u32) -> (r: u32)
    ensures
        r == days_in(y as int, m as int),
{
    if m == 2 {
        if is_leap_year(y) { 29 } else { 28 }
    } else if m == 4 || m == 6 || m == 9 || m == 11 {
        30
    } else {
        31
    }
}

/// The maximum ordinal, computed.
fn max_ordinal_exec() -> (r: i64)
    ensures
        r == max_ordinal(),
{
    days_before_year_exec(MAX_YEAR) + days_before_month_exec(MAX_YEAR, 12) + 30
}

impl CivilDate {
    /// Dates always name a real day in the supported years.
    #[verifier::type_invariant]
    closed spec fn wf(self) -> bool {
        valid_ymd(self@)
    }

    /// The date's validity, for callers that reason about its fields.
    pub fn valid(&self)
        ensures
            valid_ymd(self@),
    {
        proof { use_type_invariant(self); }
    }

    /// A date from its parts, or `None` when they name no real day.
    pub fn new(year: i32, month: u32, day: u32) -> (r: Option<CivilDate>)
        ensures
            r is Some <==> valid_ymd((year as int, month as int, day as int)),
            r matches Some(d) ==> d@ == (year as int, month as int, day as int),
    {
        if 1 <= year && year <= MAX_YEAR && 1 <= month && month <= 12 && 1 <= day
            && day <= days_in_month_of(year, month) {
            Some(CivilDate { year, month, day })
        } else {
            None
        }
    }

    pub fn year(&self) -> (r: i32)
        ensures
            r == self@.0,
    {
        self.year
    }

    pub fn month(&self) -> (r: u32)
        ensures
            r == self@.1,
    {
        self.month
    }

    pub fn day(&self) -> (r: u32)
        ensures
            r == self@.2,
    {
        self.day
    }

    /// How many days the date's month has.
    pub fn days_in_month(&self) -> (r: u32)
        ensures
            r == days_in(self@.0, self@.1),
            28 <= r <= 31,
    {
        days_in_month_of(self.year, self.month)
    }

    /// The first day of the date's month.
    pub fn first_of_month(&self) -> (r: CivilDate)
        ensures
            r@ == first_of(self@),
    {
        proof { use_type_invariant(self); }
        CivilDate { year: self.year, month: self.month, day: 1 }
    }

    /// The same month with another day, clamped into the month.
    pub fn with_day(&self, day: u32) -> (r: CivilDate)
        ensures
            r@.0 == self@.0,
            r@.1 == self@.1,
            r@.2 == (if day < 1 { 1 } else if day > days_in(self@.0, self@.1) { days_in(self@.0, self@.1) } else { day as int }),
    {
        proof { use_type_invariant(self); }
        let last = self.days_in_month();
        let d = if day < 1 { 1 } else if day > last { last } else { day };
        CivilDate { year: self.year, month: self.month, day: d }
    }

    /// Days since 0001-01-01.
    pub fn ordinal(&self) -> (r: i64)
        ensures
            r == ordinal(self@),
            0 <= r <= max_ordinal(),
    {
        proof { use_type_invariant(self); lemma_ordinal_range(self@); }
        days_before_year_exec(self.year) + days_before_month_exec(self.year, self.month) + self.day as i64 - 1
    }

    /// Days since 1970-01-01, negative before it.
    pub fn days_from_epoch(&self) -> (r: i64)
        ensures
            r == ordinal(self@) - EPOCH_ORDINAL,
    {
        self.ordinal() - EPOCH_ORDINAL
    }

    /// The date with a given ordinal.
    pub fn from_ordinal(n: i64) -> (r: CivilDate)
        requires
            0 <= n <= max_ordinal(),
        ensures
            ordinal(r@) == n,
    {
        let mut y: i32 = (n / 366) as i32 + 1;
        proof {
            lemma_days_before_year_bounds(y as int);
            lemma_days_before_year_mono(y as int, MAX_YEAR as int);
            lemma_days_before_year_step(MAX_YEAR as int);
        }
        while days_before_year_exec(y + 1) <= n
            invariant
                1 <= y <= MAX_YEAR,
                days_before_year(y as int) <= n,
                0 <= n <= max_ordinal(),
                n < days_before_year(MAX_YEAR as int + 1),
            decreases n - days_before_year(y as int),
        {
            proof {
                lemma_days_before_year_step(y as int);
                if y == MAX_YEAR {
                    assert(false);
                }
            }
            y = y + 1;
        }
        proof { lemma_days_before_year_step(y as int); }
        let mut rem: i64 = n - days_before_year_exec(y);
        let mut m: u32 = 1;
        while rem >= days_in_month_of(y, m) as i64
            invariant
                1 <= y <= MAX_YEAR,
                1 <= m <= 12,
                0 <= rem,
                days_before_month(y as int, m as int) + rem == n - days_before_year(y as int),
                n < days_before_year(y as int + 1),
                days_before_year(y as int + 1) == days_before_year(y as int) + days_before_month(y as int, 13),
            decreases 12 - m,
        {
            proof {
                lemma_month_step(y as int, m as int);
                if m == 12 {
                    assert(false);
                }
            }
            rem = rem - days_in_month_of(y, m) as i64;
            m = m + 1;
        }
        CivilDate { year: y, month: m, day: (rem + 1) as u32 }
    }

    /// The date `delta` days on (back, when negative), held to the
    /// supported range.
    pub fn add_days(&self, delta: i64) -> (r: CivilDate)
        ensures
            ordinal(r@) == clamp_ordinal(ordinal(self@) + delta),
    {
        let here = self.ordinal();
        let max = max_ordinal_exec();
        let target: i64 = if delta < 0 {
            if delta < -here { 0 } else { here + delta }
        } else {
            if delta > max - here { max } else { here + delta }
        };
        CivilDate::from_ordinal(target)
    }

    /// Whether two dates are the same day.
    pub fn same_day(&self, other: &CivilDate) -> (r: bool)
        ensures
            r == (self@ == other@),
    {
        self.year == other.year && self.month == other.month && self.day == other.day
    }

    /// Whether this date comes before another.
    pub fn is_before(&self, other: &CivilDate) -> (r: bool)
        ensures
            r == (ordinal(self@) < ordinal(other@)),
    {
        self.ordinal() < other.ordinal()
    }

    /// Days from this date to another, negative when the other is earlier.
    pub fn days_until(&self, other: &CivilDate) -> (r: i64)
        ensures
            r == ordinal(other@) - ordinal(self@),
    {
        other.ordinal() - self.ordinal()
    }

    /// The same day `delta` months on, with the day clamped to the month
    /// and the month held to the supported years.
    pub fn add_months(&self, delta: i64) -> (r: CivilDate)
        ensures
            r@ == spec_add_months(self@, delta as int),
    {
        proof { use_type_invariant(self); }
        let here: i64 = self.year as i64 * 12 + (self.month as i64 - 1);
        let hi: i64 = MAX_YEAR as i64 * 12 + 11;
        let idx: i64 = if delta < 12 - here { 12 } else if delta > hi - here { hi } else { here + delta };
        let y: i32 = (idx / 12) as i32;
        let m: u32 = (idx % 12) as u32 + 1;
        let last = days_in_month_of(y, m);
        let d = if self.day > last { last } else { self.day };
        CivilDate { year: y, month: m, day: d }
    }

    /// The column the date falls in on a grid of weeks starting Sunday.
    pub fn calendar_column(&self) -> (r: usize)
        ensures
            r == week_column(self@),
            r < 7,
    {
        ((self.ordinal() + 1) % 7) as usize
    }

    /// The date spelled `YYYY-MM-DD`, as characters.
    pub fn iso_chars(&self) -> (r: Vec<char>)
        ensures
            r@ == iso_chars(self@),
    {
        crate::text::chars_of(self.iso().as_str())
    }

    /// The date spelled `YYYY-MM-DD`.
    pub fn iso(&self) -> (r: String)
        ensures
            r@ == iso_chars(self@),
    {
        proof { use_type_invariant(self); }
        let mut s = String::new();
        push_padded(&mut s, self.year as u32, 4);
        push_char(&mut s, '-');
        push_padded(&mut s, self.month, 2);
        push_char(&mut s, '-');
        push_padded(&mut s, self.day, 2);
        s
    }
}

/// The system clock's reading, opaque to the proofs.
#[verifier::external_type_specification]
#[verifier::external_body]
pub struct ExSystemTime(std::time::SystemTime);

/// The error `SystemTime::duration_since` gives for a later reference point.
#[verifier::external_type_specification]
#[verifier::external_body]
pub struct ExSystemTimeError(std::time::SystemTimeError);

/// Calls `std::time::SystemTime::now`. Nothing is claimed of the reading.
#[verifier::external_body]
fn system_now() -> (r: std::time::SystemTime) {
    std::time::SystemTime::now()
}

/// Calls `SystemTime::duration_since` with `std::time::UNIX_EPOCH`: the time
/// elapsed since the epoch, or an error when `t` lies before it. Nothing is
/// claimed of which comes back: it depends on the clock's reading.
#[verifier::external_body]
fn since_epoch(t: &std::time::SystemTime) -> (r: Result<std::time::Duration, std::time::SystemTimeError>) {
    t.duration_since(std::time::UNIX_EPOCH)
}

/// Calls `Duration::as_secs`: the whole seconds of `d`. A `Duration` is
/// opaque here, so nothing is claimed of the number.
#[verifier::external_body]
fn whole_seconds(d: &std::time::Duration) -> (r: u64) {
    d.as_secs()
}

/// Seconds since 1970-01-01T00:00:00Z by the system clock, 0 when the clock
/// reads earlier than that.
fn clock_seconds() -> (r: u64) {
    let now = system_now();
    match since_epoch(&now) {
        Ok(elapsed) => whole_seconds(&elapsed),
        Err(_) => 0,
    }
}

/// The date `days` days after 1970-01-01, held to the supported range.
pub fn from_unix_days(days: u64) -> (r: CivilDate)
    ensures
        ordinal(r@) == clamp_ordinal(EPOCH_ORDINAL + days),
{
    let max = max_ordinal_exec();
    let target: i64 = if days > (max - EPOCH_ORDINAL) as u64 { max } else { EPOCH_ORDINAL + days as i64 };
    CivilDate::from_ordinal(target)
}

/// Today's date, in UTC, by the system clock.
pub fn today() -> (r: CivilDate)
    ensures
        valid_ymd(r@),
{
    let d = from_unix_days(clock_seconds() / 86400);
    d.valid();
    d
}

/// The character of a digit.
pub fn digit_to_char(n: u32) -> (c: char)
    requires
        n < 10,
    ensures
        c == digit_char(n as int),
{
    if n == 0 { '0' } else if n == 1 { '1' } else if n == 2 { '2' } else if n == 3 { '3' }
    else if n == 4 { '4' } else if n == 5 { '5' } else if n == 6 { '6' } else if n == 7 { '7' }
    else if n == 8 { '8' } else { '9' }
}

/// Appends `n` padded to `width` digits.
fn push_padded(s: &mut String, n: u32, width: u32)
    requires
        width <= 4,
    ensures
        final(s)@ == old(s)@ + padded(n as int, width as nat),
    decreases width,
{
    if width > 0 {
        push_padded(s, n / 10, width - 1);
        push_char(s, digit_to_char(n % 10));
    }
}

} // verus!
