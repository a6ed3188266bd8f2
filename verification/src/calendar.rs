//! State for the calendar date picker overlay.
//!
//! The picker edits the text of a date field: typed characters land in the
//! query, and moving the highlight rewrites the query. The grid follows the
//! text and the text follows the grid. A range `a..b` is edited one end at a
//! time: the caret decides which end the navigation keys rewrite.

use vstd::prelude::*;
use crate::date::{CivilDate, days_in, first_of, iso_chars, ordinal, valid_ymd, week_column, clamp_ordinal};
use crate::date_query::{
    DateQuery, date_of, find_chars, find_seq, norm, parse_partial, parse_span, partial_month,
    query_is, query_of, range_sep, text_span,
};
use crate::text::{occurs_at, chars_of, slice_chars, string_from_chars, trim, trim_chars};

verus! {

/// Which end of a range query the caret is in.
#[derive(Clone, Copy, Debug, PartialEq, Eq, Structural)]
pub enum Side {
    /// There is no range; the whole query is one date.
    Whole,
    /// The text before `..`.
    Start,
    /// The text after `..`.
    End,
}

/// The abstract state of the picker.
pub struct CalendarModel {
    pub label: Seq<char>,
    pub query: Seq<char>,
    pub caret: int,
    pub visible_month: (int, int, int),
    pub today: (int, int, int),
    pub ranges: bool,
}

/// Where the `..` separator starts, or -1.
pub open spec fn sep_of(q: Seq<char>) -> int {
    find_seq(q, range_sep())
}

/// Which end the caret is in.
pub open spec fn side_of(m: CalendarModel) -> Side {
    let i = sep_of(m.query);
    if i < 0 { Side::Whole } else if m.caret <= i { Side::Start } else { Side::End }
}

/// The char range of the end the caret is in.
pub open spec fn active_bounds(m: CalendarModel) -> (int, int) {
    let i = sep_of(m.query);
    match side_of(m) {
        Side::Whole => (0, m.query.len() as int),
        Side::Start => (0, i),
        Side::End => (i + 2, m.query.len() as int),
    }
}

/// The text of the end the caret is in.
pub open spec fn active_raw(m: CalendarModel) -> Seq<char> {
    let (s, e) = active_bounds(m);
    m.query.subrange(s, e)
}

/// The span the active end names.
pub open spec fn active_span_of(m: CalendarModel) -> Option<(int, int)> {
    text_span(active_raw(m), m.today)
}

/// The day the highlight sits on, as an ordinal: the first day of the
/// active end's span before the `..`, the last day after it, and for a lone
/// token the last day on a field that takes ranges, the first otherwise.
pub open spec fn active_date_of(m: CalendarModel) -> Option<int> {
    match active_span_of(m) {
        None => None,
        Some((a, b)) => Some(match side_of(m) {
            Side::Start => a,
            Side::End => b,
            Side::Whole => if m.ranges { b } else { a },
        }),
    }
}

/// The first day named by the end the caret is not in.
pub open spec fn other_end_of(m: CalendarModel) -> Option<int> {
    let i = sep_of(m.query);
    if i < 0 {
        None
    } else {
        let side_text = match side_of(m) {
            Side::Start => m.query.skip(i + 2),
            _ => m.query.take(i),
        };
        match text_span(side_text, m.today) {
            Some((a, b)) => Some(a),
            None => None,
        }
    }
}

/// Where a movement starts when the active end names no day: the other end,
/// else today when today's month is on screen, else the visible month's first.
pub open spec fn fallback_of(m: CalendarModel) -> int {
    match other_end_of(m) {
        Some(o) => o,
        None => if m.visible_month == first_of(m.today) { ordinal(m.today) } else { ordinal(m.visible_month) },
    }
}

/// The state with its grid moved to the month the active end points at.
pub open spec fn follow_of(m: CalendarModel) -> CalendarModel {
    let month = match active_date_of(m) {
        Some(a) => first_of(date_of(a)),
        None => match partial_month(norm(active_raw(m)), m.today) {
            Some((y, mo)) => (y, mo, 1),
            None => match other_end_of(m) {
                Some(o) => first_of(date_of(o)),
                None => m.visible_month,
            },
        },
    };
    CalendarModel { visible_month: month, ..m }
}

/// The state with the active end rewritten to a day.
pub open spec fn set_active_of(m: CalendarModel, d: (int, int, int)) -> CalendarModel {
    let whole = text_span(m.query, m.today);
    if m.ranges && side_of(m) == Side::Whole && whole is Some && whole.unwrap().0 != whole.unwrap().1 {
        let q = iso_chars(date_of(whole.unwrap().0)) + range_sep() + iso_chars(d);
        CalendarModel { query: q, caret: q.len() as int, visible_month: first_of(d), ..m }
    } else {
        let (s, e) = active_bounds(m);
        let q = m.query.take(s) + iso_chars(d) + m.query.skip(e);
        CalendarModel { query: q, caret: s + iso_chars(d).len(), visible_month: first_of(d), ..m }
    }
}

/// The picker just opened on a field.
pub open spec fn open_of(label: Seq<char>, query: Seq<char>, today: (int, int, int), ranges: bool) -> CalendarModel {
    let q = trim(query);
    follow_of(CalendarModel { label, query: q, caret: q.len() as int, visible_month: first_of(today), today, ranges })
}

/// The picker after a character is typed at the caret.
pub open spec fn push_of(m: CalendarModel, ch: char) -> CalendarModel {
    let q = m.query.take(m.caret).push(ch) + m.query.skip(m.caret);
    follow_of(CalendarModel { query: q, caret: m.caret + 1, ..m })
}

/// The picker after the character before the caret is deleted.
pub open spec fn pop_of(m: CalendarModel) -> CalendarModel {
    if m.caret == 0 {
        m
    } else {
        let q = m.query.take(m.caret - 1) + m.query.skip(m.caret);
        follow_of(CalendarModel { query: q, caret: m.caret - 1, ..m })
    }
}

/// The day a grid cell shows, for week `w` and column `c` of a month.
pub open spec fn cell_of(month: (int, int, int), w: int, c: int) -> Option<u32> {
    let day = w * 7 + c - week_column(first_of(month)) + 1;
    if 1 <= day <= days_in(month.0, month.1) { Some(day as u32) } else { None }
}

/// How many week rows a month needs.
pub open spec fn week_count(month: (int, int, int)) -> int {
    (week_column(first_of(month)) + days_in(month.0, month.1) + 6) / 7
}

/// The two ends of a written range, each the outer edge of its span.
pub open spec fn range_of(m: CalendarModel) -> Option<(Option<int>, Option<int>)> {
    let i = sep_of(m.query);
    if i < 0 {
        None
    } else {
        Some((
            match text_span(m.query.take(i), m.today) { Some(sp) => Some(sp.0), None => None },
            match text_span(m.query.skip(i + 2), m.today) { Some(sp) => Some(sp.1), None => None },
        ))
    }
}

/// The days the grid shades: a written range, or a lone token naming more
/// than one day.
pub open spec fn shade_of(m: CalendarModel) -> Option<(Option<int>, Option<int>)> {
    if range_of(m) is Some {
        range_of(m)
    } else {
        match active_span_of(m) {
            Some((a, b)) => if a != b { Some((Some(a), Some(b))) } else { None },
            None => None,
        }
    }
}

/// Whether a pair of optional dates is the one a spec names by ordinals.
pub open spec fn pair_is(r: Option<(Option<CivilDate>, Option<CivilDate>)>, s: Option<(Option<int>, Option<int>)>) -> bool {
    &&& (r is Some <==> s is Some)
    &&& (r is Some ==> date_is(r.unwrap().0, s.unwrap().0) && date_is(r.unwrap().1, s.unwrap().1))
}

/// Whether an optional date is the one a spec names by ordinal.
pub open spec fn date_is(r: Option<CivilDate>, o: Option<int>) -> bool {
    &&& (r is Some <==> o is Some)
    &&& r matches Some(d) ==> ordinal(d@) == o.unwrap()
}

/// The picker's state while a date field is being edited.
#[derive(Debug)]
pub struct CalendarState {
    field_label: String,
    query: Vec<char>,
    caret: usize,
    visible_month: CivilDate,
    today: CivilDate,
    ranges: bool,
}

impl View for CalendarState {
    type V = CalendarModel;

    closed spec fn view(&self) -> CalendarModel {
        CalendarModel {
            label: self.field_label@,
            query: self.query@,
            caret: self.caret as int,
            visible_month: self.visible_month@,
            today: self.today@,
            ranges: self.ranges,
        }
    }
}


impl Clone for CalendarState {
    fn clone(&self) -> (r: Self)
        ensures
            r@ == self@,
    {
        proof { use_type_invariant(self); }
        CalendarState {
            field_label: self.field_label.clone(),
            query: self.query.clone(),
            caret: self.caret,
            visible_month: self.visible_month,
            today: self.today,
            ranges: self.ranges,
        }
    }
}

impl CalendarState {
    /// Every reachable state keeps the caret in the query and the grid on
    /// the first of a month.
    #[verifier::type_invariant]
    pub closed spec fn wf(&self) -> bool {
        &&& self.caret <= self.query.len()
        &&& self.visible_month@.2 == 1
    }

    /// Opens the picker on a filter field holding `query`, caret at the end.
    pub fn open(field_label: &str, query: &str, today: CivilDate) -> (r: Self)
        ensures
            r@ == open_of(field_label@, query@, today@, true),
    {
        Self::new(field_label, query, today, true)
    }

    /// Opens the picker on a field that holds one day and no range.
    pub fn open_one_day(field_label: &str, value: &str, today: CivilDate) -> (r: Self)
        ensures
            r@ == open_of(field_label@, value@, today@, false),
    {
        Self::new(field_label, value, today, false)
    }

    fn new(field_label: &str, query: &str, today: CivilDate, ranges: bool) -> (r: Self)
        ensures
            r@ == open_of(field_label@, query@, today@, ranges),
    {
        let q = trim_chars(&chars_of(query));
        let caret = q.len();
        let mut state = CalendarState {
            field_label: field_label.to_owned(),
            query: q,
            caret,
            visible_month: today.first_of_month(),
            today,
            ranges,
        };
        state.follow_text();
        state
    }

    /// The field being edited.
    pub fn field_label(&self) -> (r: &String)
        ensures
            r@ == self@.label,
    {
        proof { use_type_invariant(self); }
        &self.field_label
    }

    /// The query, for writing back into the field.
    pub fn query(&self) -> (r: String)
        ensures
            r@ == self@.query,
    {
        proof { use_type_invariant(self); }
        string_from_chars(&self.query)
    }

    /// The query as characters.
    pub fn query_chars(&self) -> (r: &Vec<char>)
        ensures
            r@ == self@.query,
    {
        proof { use_type_invariant(self); }
        &self.query
    }

    /// The caret position, as a char index.
    pub fn caret(&self) -> (r: usize)
        ensures
            r == self@.caret,
    {
        proof { use_type_invariant(self); }
        self.caret
    }

    /// The month on display.
    pub fn visible_month(&self) -> (r: CivilDate)
        ensures
            r@ == self@.visible_month,
    {
        proof { use_type_invariant(self); }
        self.visible_month
    }

    /// Today, as resolved when the picker opened.
    pub fn today(&self) -> (r: CivilDate)
        ensures
            r@ == self@.today,
    {
        proof { use_type_invariant(self); }
        self.today
    }

    /// Whether the field being edited can hold a range.
    pub fn ranges(&self) -> (r: bool)
        ensures
            r == self@.ranges,
    {
        proof { use_type_invariant(self); }
        self.ranges
    }

    /// The char range the `..` separator occupies, if there is one.
    fn separator(&self) -> (r: Option<(usize, usize)>)
        ensures
            sep_of(self@.query) < 0 ==> r is None,
            sep_of(self@.query) >= 0 ==> r is Some,
            r matches Some((a, b)) ==> a == sep_of(self@.query) && b == a + 2 && b <= self@.query.len(),
    {
        proof { use_type_invariant(self); }
        let sep: Vec<char> = vec!['.', '.'];
        assert(sep@ == range_sep());
        assert(sep@.len() == 2);
        match find_chars(&self.query, &sep) {
            Some(i) => {
                let n = self.query.len();
                assert(occurs_at(self@.query, sep@, i as int));
                Some((i, i + 2))
            },
            None => None,
        }
    }

    /// Which end of a range the caret is in.
    pub fn side(&self) -> (r: Side)
        ensures
            r == side_of(self@),
    {
        proof { use_type_invariant(self); }
        match self.separator() {
            None => Side::Whole,
            Some((start, _)) => if self.caret <= start { Side::Start } else { Side::End },
        }
    }

    /// The char range of the end the caret is in.
    fn active_span(&self) -> (r: (usize, usize))
        ensures
            r.0 == active_bounds(self@).0,
            r.1 == active_bounds(self@).1,
            r.0 <= r.1 <= self@.query.len(),
    {
        proof { use_type_invariant(self); }
        let len = self.query.len();
        match self.separator() {
            None => (0, len),
            Some((start, end)) => if self.caret <= start { (0, start) } else { (end, len) },
        }
    }

    /// The text of the end the caret is in.
    fn active_text(&self) -> (r: Vec<char>)
        ensures
            r@ == active_raw(self@),
    {
        proof { use_type_invariant(self); }
        let (s, e) = self.active_span();
        slice_chars(&self.query, s, e)
    }

    /// The day the highlight sits on, when the active end names one.
    pub fn active_date(&self) -> (r: Option<CivilDate>)
        ensures
            date_is(r, active_date_of(self@)),
    {
        proof { use_type_invariant(self); }
        let text = self.active_text();
        match parse_span(&text, self.today) {
            None => None,
            Some(span) => Some(match self.side() {
                Side::Start => span.start(),
                Side::End => span.end(),
                Side::Whole => if self.ranges { span.end() } else { span.start() },
            }),
        }
    }

    /// The range's two ends, or `None` when the query is not a range. Each
    /// end contributes the outside of the span it names.
    pub fn range(&self) -> (r: Option<(Option<CivilDate>, Option<CivilDate>)>)
        ensures
            pair_is(r, range_of(self@)),
    {
        proof { use_type_invariant(self); }
        match self.separator() {
            None => None,
            Some((start, end)) => {
                let left = slice_chars(&self.query, 0, start);
                let right = slice_chars(&self.query, end, self.query.len());
                assert(left@ == self@.query.take(start as int));
                assert(right@ == self@.query.skip(end as int));
                let a = match parse_span(&left, self.today) { Some(sp) => Some(sp.start()), None => None };
                let b = match parse_span(&right, self.today) { Some(sp) => Some(sp.end()), None => None };
                Some((a, b))
            },
        }
    }

    /// The days the grid should shade: a written range, or a lone token
    /// naming more than one day.
    pub fn span(&self) -> (r: Option<(Option<CivilDate>, Option<CivilDate>)>)
        ensures
            pair_is(r, shade_of(self@)),
    {
        proof { use_type_invariant(self); }
        if let Some(range) = self.range() {
            return Some(range);
        }
        let text = self.active_text();
        match parse_span(&text, self.today) {
            Some(span) => if span.is_day() { None } else { Some((Some(span.start()), Some(span.end()))) },
            None => None,
        }
    }

    /// The whole query as the filter will read it.
    pub fn resolution(&self) -> (r: Option<DateQuery>)
        ensures
            query_is(r, query_of(self@.query, self@.today)),
    {
        proof { use_type_invariant(self); }
        DateQuery::parse(&self.query, self.today)
    }

    /// Whether the query is empty or a date expression the filter can use.
    pub fn parses(&self) -> (r: bool)
        ensures
            r == (trim(self@.query).len() == 0 || query_of(self@.query, self@.today) is Some),
    {
        proof { use_type_invariant(self); }
        trim_chars(&self.query).len() == 0 || DateQuery::parse(&self.query, self.today).is_some()
    }

    /// Empties the query, leaving the visible month where it is.
    pub fn clear(&mut self)
        ensures
            final(self)@ == (CalendarModel { query: Seq::empty(), caret: 0, ..old(self)@ }),
    {
        proof { use_type_invariant(&*self); }
        self.caret = 0;
        self.query = Vec::new();
    }

    /// The date named by the end of the range the caret is not in.
    fn other_end_date(&self) -> (r: Option<CivilDate>)
        ensures
            date_is(r, other_end_of(self@)),
    {
        proof { use_type_invariant(self); }
        match self.separator() {
            None => None,
            Some((start, end)) => {
                let text = if self.caret <= start {
                    slice_chars(&self.query, end, self.query.len())
                } else {
                    slice_chars(&self.query, 0, start)
                };
                assert(self@.query.subrange(end as int, self@.query.len() as int) == self@.query.skip(end as int));
                assert(self@.query.subrange(0, start as int) == self@.query.take(start as int));
                match parse_partial(&text, self.today) {
                    Some(p) => p.day,
                    None => None,
                }
            },
        }
    }

    /// Where a movement starts from when the active end names no date yet.
    fn fallback_date(&self) -> (r: CivilDate)
        ensures
            ordinal(r@) == fallback_of(self@),
    {
        proof { use_type_invariant(self); }
        if let Some(other) = self.other_end_date() {
            return other;
        }
        let first = self.today.first_of_month();
        if self.visible_month.same_day(&first) { self.today } else { self.visible_month }
    }

    /// Replaces the query and puts the caret in it.
    fn set_text_and_caret(&mut self, q: Vec<char>, c: usize)
        requires
            c <= q@.len(),
        ensures
            final(self)@ == (CalendarModel { query: q@, caret: c as int, ..old(self)@ }),
    {
        proof { use_type_invariant(&*self); }
        *self = CalendarState {
            field_label: self.field_label.clone(),
            query: q,
            caret: c,
            visible_month: self.visible_month,
            today: self.today,
            ranges: self.ranges,
        };
    }

    /// Replaces the active end's text with a date and shows its month. A
    /// lone token covering more than one day on a range field is spelled out
    /// as a range first, keeping its start.
    fn set_active_date(&mut self, date: CivilDate)
        ensures
            final(self)@ == set_active_of(old(self)@, date@),
    {
        proof { use_type_invariant(&*self); }
        date.valid();
        let iso = date.iso_chars();
        if self.ranges && self.side() == Side::Whole {
            if let Some(sp) = parse_span(&self.query, self.today) {
                if !sp.is_day() {
                    let start = sp.start();
                    start.valid();
                    proof { crate::date_query::lemma_date_of(start@); }
                    let sep: Vec<char> = vec!['.', '.'];
                    assert(sep@ == range_sep());
                    let q = crate::text::concat_chars(&crate::text::concat_chars(&start.iso_chars(), &sep), &iso);
                    let n = q.len();
                    self.set_text_and_caret(q, n);
                    self.visible_month = date.first_of_month();
                    return;
                }
            }
        }
        let (s, e) = self.active_span();
        let head = slice_chars(&self.query, 0, s);
        let tail = slice_chars(&self.query, e, self.query.len());
        assert(head@ == self@.query.take(s as int));
        assert(tail@ == self@.query.skip(e as int));
        let q = crate::text::concat_chars(&crate::text::concat_chars(&head, &iso), &tail);
        let c = q.len() - tail.len();
        assert(c == s + iso@.len());
        self.set_text_and_caret(q, c);
        self.visible_month = date.first_of_month();
    }

    /// Moves the grid to whatever month the active end's text points at.
    fn follow_text(&mut self)
        ensures
            final(self)@ == follow_of(old(self)@),
    {
        proof { use_type_invariant(&*self); }
        if let Some(d) = self.active_date() {
            d.valid();
            proof { crate::date_query::lemma_date_of(d@); }
            self.visible_month = d.first_of_month();
        } else {
            let text = self.active_text();
            match parse_partial(&text, self.today) {
                Some(p) => {
                    self.visible_month = p.month;
                },
                None => {
                    if let Some(o) = self.other_end_date() {
                        o.valid();
                        proof { crate::date_query::lemma_date_of(o@); }
                        self.visible_month = o.first_of_month();
                    }
                },
            }
        }
    }

    /// Moves the highlight by whole days, rewriting the active end.
    pub fn move_days(&mut self, delta: i64)
        ensures
            final(self)@ == set_active_of(old(self)@, date_of(clamp_ordinal(
                match active_date_of(old(self)@) { Some(a) => a, None => fallback_of(old(self)@) } + delta))),
    {
        proof { use_type_invariant(&*self); }
        let base = match self.active_date() {
            Some(d) => d,
            None => self.fallback_date(),
        };
        let next = base.add_days(delta);
        next.valid();
        proof { crate::date_query::lemma_date_of(next@); }
        self.set_active_date(next);
    }

    /// Flips the displayed month, landing on the first of the month going
    /// forward and on the last going back, and rewriting the active end.
    pub fn move_months(&mut self, delta: i64)
        ensures
            final(self)@ == set_active_of(old(self)@, {
                let mo = crate::date::spec_add_months(old(self)@.visible_month, delta as int);
                (mo.0, mo.1, if delta < 0 { days_in(mo.0, mo.1) } else { 1 })
            }),
    {
        proof { use_type_invariant(&*self); }
        let month = self.visible_month.add_months(delta);
        month.valid();
        let day = if delta < 0 { month.days_in_month() } else { 1 };
        let target = month.with_day(day);
        self.set_active_date(target);
    }

    /// Jumps the highlight to today, rewriting the active end.
    pub fn jump_today(&mut self)
        ensures
            final(self)@ == set_active_of(old(self)@, old(self)@.today),
    {
        proof { use_type_invariant(&*self); }
        let today = self.today;
        self.set_active_date(today);
    }

    /// Inserts a typed character at the caret.
    pub fn push_char(&mut self, ch: char)
        ensures
            final(self)@ == push_of(old(self)@, ch),
    {
        proof { use_type_invariant(&*self); }
        let at = self.caret;
        let mut chars = self.query.clone();
        let ghost before = chars@;
        chars.insert(at, ch);
        assert(chars@ =~= before.take(at as int).push(ch) + before.skip(at as int));
        let n = chars.len();
        self.query = chars;
        self.caret = at + 1;
        self.follow_text();
    }

    /// Deletes the character before the caret.
    pub fn pop_char(&mut self)
        ensures
            final(self)@ == pop_of(old(self)@),
    {
        proof { use_type_invariant(&*self); }
        if self.caret == 0 {
            return;
        }
        let at = self.caret;
        let mut chars = self.query.clone();
        let ghost before = chars@;
        chars.remove(at - 1);
        assert(chars@ =~= before.take(at - 1) + before.skip(at as int));
        self.caret = at - 1;
        self.query = chars;
        self.follow_text();
    }

    /// Moves the caret by characters, clamped to the query.
    pub fn move_caret(&mut self, delta: i64)
        ensures
            final(self)@ == follow_of(CalendarModel {
                caret: crate::text_edit::clamp_caret(old(self)@.caret, delta as int, old(self)@.query.len() as int),
                ..old(self)@
            }),
    {
        proof { use_type_invariant(&*self); }
        let len = self.query.len();
        let c = self.caret;
        let next: usize = if delta < 0 {
            if (c as i128) + (delta as i128) < 0 { 0 } else { ((c as i128) + (delta as i128)) as usize }
        } else {
            if (c as i128) + (delta as i128) > len as i128 { len } else { ((c as i128) + (delta as i128)) as usize }
        };
        self.caret = next;
        self.follow_text();
    }

    /// Puts the caret at the end of the range's start; `false` when the
    /// query is not a range.
    pub fn jump_to_start(&mut self) -> (r: bool)
        ensures
            r == (sep_of(old(self)@.query) >= 0),
            !r ==> final(self)@ == old(self)@,
            r ==> final(self)@ == follow_of(CalendarModel { caret: sep_of(old(self)@.query), ..old(self)@ }),
    {
        proof { use_type_invariant(&*self); }
        match self.separator() {
            None => false,
            Some((start, _)) => {
                self.caret = start;
                self.follow_text();
                true
            },
        }
    }

    /// Puts the caret after the range's end; `false` when the query is not
    /// a range.
    pub fn jump_to_end(&mut self) -> (r: bool)
        ensures
            r == (sep_of(old(self)@.query) >= 0),
            !r ==> final(self)@ == old(self)@,
            r ==> final(self)@ == follow_of(CalendarModel { caret: old(self)@.query.len() as int, ..old(self)@ }),
    {
        proof { use_type_invariant(&*self); }
        if self.separator().is_none() {
            return false;
        }
        self.caret = self.query.len();
        self.follow_text();
        true
    }

    /// Fills in the highlighted day when the active end does not already
    /// name one; a complete date or keyword is left as typed.
    pub fn normalize(&mut self)
        ensures
            active_span_of(old(self)@) is Some ==> final(self)@ == old(self)@,
            active_span_of(old(self)@) is None ==> final(self)@ == set_active_of(old(self)@, date_of(fallback_of(old(self)@))),
    {
        proof { use_type_invariant(&*self); }
        let text = self.active_text();
        if parse_span(&text, self.today).is_some() {
            return;
        }
        let d = self.fallback_date();
        d.valid();
        proof { crate::date_query::lemma_date_of(d@); }
        self.set_active_date(d);
    }

    /// The month laid out as weeks starting Sunday, with the cells outside
    /// the month empty.
    pub fn weeks(&self) -> (r: Vec<[Option<u32>; 7]>)
        ensures
            r.len() == week_count(self@.visible_month),
            forall|w: int, c: int| 0 <= w < r.len() && 0 <= c < 7 ==> #[trigger] r@[w]@[c] == cell_of(self@.visible_month, w, c),
    {
        proof { use_type_invariant(self); }
        let first = self.visible_month.first_of_month();
        first.valid();
        let offset = first.calendar_column();
        let days = first.days_in_month();
        let n: usize = (offset + days as usize + 6) / 7;
        let mut weeks: Vec<[Option<u32>; 7]> = Vec::new();
        let mut w: usize = 0;
        while w < n
            invariant
                w <= n,
                n == week_count(self@.visible_month),
                offset == week_column(first_of(self@.visible_month)),
                days == days_in(self@.visible_month.0, self@.visible_month.1),
                offset < 7,
                days <= 31,
                weeks.len() == w,
                forall|i: int, c: int| 0 <= i < w && 0 <= c < 7 ==> #[trigger] weeks@[i]@[c] == cell_of(self@.visible_month, i, c),
            decreases n - w,
        {
            let week: [Option<u32>; 7] = [
                grid_cell(w, 0, offset, days),
                grid_cell(w, 1, offset, days),
                grid_cell(w, 2, offset, days),
                grid_cell(w, 3, offset, days),
                grid_cell(w, 4, offset, days),
                grid_cell(w, 5, offset, days),
                grid_cell(w, 6, offset, days),
            ];
            assert forall|c: int| 0 <= c < 7 implies #[trigger] week@[c] == cell_of(self@.visible_month, w as int, c) by {
                if c == 0 {} else if c == 1 {} else if c == 2 {} else if c == 3 {} else if c == 4 {} else if c == 5 {} else {}
            }
            weeks.push(week);
            w += 1;
        }
        weeks
    }
}

/// The day in week `w`, column `c` of a month starting at column `offset`.
fn grid_cell(w: usize, c: usize, offset: usize, days: u32) -> (r: Option<u32>)
    requires
        w <= 6,
        c < 7,
        offset < 7,
        days <= 31,
    ensures
        r == (if 1 <= w * 7 + c - offset + 1 <= days { Some((w * 7 + c - offset + 1) as u32) } else { None::<u32> }),
{
    let day: i64 = (w * 7 + c) as i64 - offset as i64 + 1;
    if 1 <= day && day <= days as i64 { Some(day as u32) } else { None }
}


/// One change the date picker takes.
#[derive(Clone, Copy, Debug, PartialEq, Eq, Structural)]
pub enum CalendarStep {
    MoveDays(i64),
    MoveMonths(i64),
    Today,
    PushChar(char),
    PopChar,
    MoveCaret(i64),
    JumpToStart,
    JumpToEnd,
    Clear,
    Normalize,
}

/// The picker after a change.
pub open spec fn step_of(m: CalendarModel, step: CalendarStep) -> CalendarModel {
    match step {
        CalendarStep::MoveDays(delta) => set_active_of(m, crate::date_query::date_of(crate::date::clamp_ordinal(
            match active_date_of(m) { Some(a) => a, None => fallback_of(m) } + delta))),
        CalendarStep::MoveMonths(delta) => set_active_of(m, {
            let mo = crate::date::spec_add_months(m.visible_month, delta as int);
            (mo.0, mo.1, if delta < 0 { crate::date::days_in(mo.0, mo.1) } else { 1 })
        }),
        CalendarStep::Today => set_active_of(m, m.today),
        CalendarStep::PushChar(ch) => push_of(m, ch),
        CalendarStep::PopChar => pop_of(m),
        CalendarStep::MoveCaret(delta) => follow_of(CalendarModel {
            caret: crate::text_edit::clamp_caret(m.caret, delta as int, m.query.len() as int),
            ..m
        }),
        CalendarStep::JumpToStart => if sep_of(m.query) >= 0 { follow_of(CalendarModel { caret: sep_of(m.query), ..m }) } else { m },
        CalendarStep::JumpToEnd => if sep_of(m.query) >= 0 { follow_of(CalendarModel { caret: m.query.len() as int, ..m }) } else { m },
        CalendarStep::Clear => CalendarModel { query: Seq::empty(), caret: 0, ..m },
        CalendarStep::Normalize => if active_span_of(m) is Some { m } else {
            set_active_of(m, crate::date_query::date_of(fallback_of(m)))
        },
    }
}

impl CalendarState {
    /// Takes one change.
    pub fn step(&mut self, step: CalendarStep)
        ensures
            final(self)@ == step_of(old(self)@, step),
    {
        match step {
            CalendarStep::MoveDays(delta) => self.move_days(delta),
            CalendarStep::MoveMonths(delta) => self.move_months(delta),
            CalendarStep::Today => self.jump_today(),
            CalendarStep::PushChar(ch) => self.push_char(ch),
            CalendarStep::PopChar => self.pop_char(),
            CalendarStep::MoveCaret(delta) => self.move_caret(delta),
            CalendarStep::JumpToStart => {
                let _ = self.jump_to_start();
            },
            CalendarStep::JumpToEnd => {
                let _ = self.jump_to_end();
            },
            CalendarStep::Clear => self.clear(),
            CalendarStep::Normalize => self.normalize(),
        }
    }
}

} // verus!
