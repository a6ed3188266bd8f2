//! Editing filter rows and sets: clearing them, writing them out as saved
//! values, reading saved values back, carrying them across a rebuild, and
//! the due-date window that a panel of sets lets the server narrow to.

use vstd::prelude::*;
use crate::filter::{
    FieldReading, FieldView, SavedFilterField, SavedFilterSet, SavedView, SetView, TaskFieldFilterKind,
    TaskFieldStringMode, TaskFilterFieldSpec, TaskFilterFieldState, TaskFilterSet, fields_view, label_values_of,
    labels_blank, lemma_an_empty_set_accepts_everything, lemma_mode_name_round_trip, matcher_of, mode_name, mode_named,
    prepared_set, set_accepts, ReadingView, active_fields, parse_label_values, parse_string_mode, row_active, saved_view,
    string_mode_name, texts, value_empty,
};
use crate::date::{CivilDate, ordinal, valid_ymd, iso_chars};
use crate::date_query::{DateQuery, date_of, lemma_date_of, query_of};
use crate::text::{chars_of, concat_chars, eq_chars, string_from_chars, trim, trim_chars};

verus! {

/// What stands between two label values in a row's text.
pub open spec fn bar() -> Seq<char> {
    seq![' ', '|', ' ']
}

/// Label values joined by the separator.
pub open spec fn joined(parts: Seq<Seq<char>>) -> Seq<char>
    decreases parts.len(),
{
    if parts.len() == 0 {
        Seq::empty()
    } else if parts.len() == 1 {
        parts[0]
    } else {
        joined(parts.drop_last()) + bar() + parts.last()
    }
}

/// Joins label values with the separator.
pub fn join_labels(parts: &Vec<String>) -> (r: String)
    ensures
        r@ == joined(texts(parts@)),
{
    let ghost ts = texts(parts@);
    let sep: Vec<char> = vec![' ', '|', ' '];
    let mut out: Vec<char> = Vec::new();
    let mut i: usize = 0;
    while i < parts.len()
        invariant
            i <= parts.len(),
            ts == texts(parts@),
            sep@ == bar(),
            out@ == joined(ts.take(i as int)),
        decreases parts.len() - i,
    {
        assert(ts.take(i as int + 1).drop_last() == ts.take(i as int));
        assert(ts.take(i as int + 1).last() == ts[i as int]);
        let piece = chars_of(parts[i].as_str());
        if i > 0 {
            out = concat_chars(&out, &sep);
            out = concat_chars(&out, &piece);
        } else {
            out = concat_chars(&out, &piece);
            assert(out@ == ts[0]);
        }
        i += 1;
    }
    assert(ts.take(i as int) == ts);
    string_from_chars(&out)
}

/// A row with everything the user put in it taken out: its value, its
/// label values, require-empty and negation. The match mode stays.
pub open spec fn cleared_row(f: FieldView) -> FieldView {
    FieldView { value: (Seq::empty(), 0), label_values: Seq::empty(), label_cursor: 0, empty_required: false, negated: false, ..f }
}

/// A row as a saved value, or `None` when it filters nothing.
pub open spec fn saved_of(f: FieldView) -> Option<SavedView> {
    if !row_active(f) {
        None
    } else {
        Some(SavedView {
            key: f.key,
            query: if f.empty_required { Seq::empty() } else { f.value.0 },
            string_mode: if f.kind == TaskFieldFilterKind::String && f.string_mode != f.default_string_mode {
                Some(mode_name(f.string_mode))
            } else {
                None
            },
            empty: f.empty_required,
            negated: f.negated,
        })
    }
}

/// A saved value, if there is one, as plain values.
pub open spec fn saved_opt(o: Option<SavedFilterField>) -> Option<SavedView> {
    match o {
        Some(s) => Some(s@),
        None => None,
    }
}

/// How many rows filter something.
pub open spec fn count_active(fs: Seq<FieldView>) -> nat
    decreases fs.len(),
{
    if fs.len() == 0 {
        0
    } else {
        count_active(fs.drop_last()) + if row_active(fs.last()) { 1nat } else { 0nat }
    }
}

impl Clone for TaskFilterFieldSpec {
    fn clone(&self) -> (r: Self)
        ensures
            r.key@ == self.key@,
            r.label@ == self.label@,
            r.kind == self.kind,
            r.custom_gids@ == self.custom_gids@,
            r.can_be_empty == self.can_be_empty,
            r.completes == self.completes,
    {
        TaskFilterFieldSpec {
            key: self.key.clone(),
            label: self.label.clone(),
            kind: self.kind,
            custom_gids: self.custom_gids.clone(),
            can_be_empty: self.can_be_empty,
            completes: self.completes,
        }
    }
}

impl Clone for TaskFilterFieldState {
    fn clone(&self) -> (r: Self)
        ensures
            r@ == self@,
    {
        let r = TaskFilterFieldState {
            spec: self.spec.clone(),
            value: self.value.clone(),
            string_mode: self.string_mode,
            label_values: self.label_values.clone(),
            label_options: self.label_options.clone(),
            label_cursor: self.label_cursor,
            empty_required: self.empty_required,
            negated: self.negated,
            default_string_mode: self.default_string_mode,
        };
        assert(texts(r.spec.custom_gids@) == texts(self.spec.custom_gids@));
        r
    }
}

impl TaskFilterFieldState {
    /// A row with nothing in it, in the given match mode.
    pub fn new(spec: TaskFilterFieldSpec, string_mode: TaskFieldStringMode, label_options: Vec<String>) -> (r: Self)
        ensures
            r.spec == spec,
            r.value@ == (Seq::<char>::empty(), 0int),
            r.string_mode == string_mode,
            r.label_values@.len() == 0,
            r.label_options == label_options,
            r.label_cursor == 0,
            !r.empty_required,
            !r.negated,
            r.default_string_mode == string_mode,
    {
        TaskFilterFieldState {
            spec,
            value: crate::text_edit::TextEdit::new(),
            string_mode,
            label_values: Vec::new(),
            label_options,
            label_cursor: 0,
            empty_required: false,
            negated: false,
            default_string_mode: string_mode,
        }
    }

    /// Takes out everything the user put in the row, keeping its match mode.
    pub fn clear_value(&mut self)
        ensures
            final(self)@ == cleared_row(old(self)@),
    {
        self.value.clear();
        self.label_values = Vec::new();
        self.label_cursor = 0;
        self.empty_required = false;
        self.negated = false;
        assert(texts(self.label_values@) == Seq::<Seq<char>>::empty());
    }

    /// The row as a saved value, or `None` when it filters nothing.
    pub fn to_saved(&self) -> (r: Option<SavedFilterField>)
        ensures
            saved_opt(r) == saved_of(self@),
    {
        if !self.is_active() {
            return None;
        }
        let mode = if self.spec.kind == TaskFieldFilterKind::String && self.string_mode != self.default_string_mode {
            Some(string_mode_name(self.string_mode).to_string())
        } else {
            None
        };
        let query = if self.empty_required { String::new() } else { self.value.text() };
        Some(SavedFilterField {
            key: self.spec.key.clone(),
            query,
            string_mode: mode,
            empty: self.empty_required,
            negated: self.negated,
        })
    }

    /// Whether a task has nothing at all in the field this row reads.
    pub fn value_is_empty(&self, reading: &FieldReading) -> (r: bool)
        ensures
            r == value_empty(self.spec.kind, reading@),
    {
        match self.spec.kind {
            TaskFieldFilterKind::String => trim_chars(&chars_of(reading.text.as_str())).len() == 0,
            TaskFieldFilterKind::Labels => {
                let r = labels_blank(&reading.labels);
                assert(reading@.labels == texts(reading.labels@));
                r
            },
            TaskFieldFilterKind::Date => reading.date.is_none(),
        }
    }
}

/// Copies of the rows, each cleared.
fn cleared_rows(v: &Vec<TaskFilterFieldState>) -> (r: Vec<TaskFilterFieldState>)
    ensures
        fields_view(r@) == fields_view(v@).map_values(|f: FieldView| cleared_row(f)),
{
    let mut out: Vec<TaskFilterFieldState> = Vec::new();
    let mut i: usize = 0;
    while i < v.len()
        invariant
            i <= v.len(),
            out@.len() == i,
            forall|k: int| 0 <= k < i ==> (#[trigger] out@[k])@ == cleared_row(v@[k]@),
        decreases v.len() - i,
    {
        let mut f = v[i].clone();
        f.clear_value();
        out.push(f);
        i += 1;
    }
    assert(fields_view(out@) =~= fields_view(v@).map_values(|f: FieldView| cleared_row(f)));
    out
}

/// Copies of saved values.
fn copy_saved(v: &Vec<SavedFilterField>) -> (r: Vec<SavedFilterField>)
    ensures
        saved_view(r@) == saved_view(v@),
{
    let mut out: Vec<SavedFilterField> = Vec::new();
    let mut i: usize = 0;
    while i < v.len()
        invariant
            i <= v.len(),
            out@.len() == i,
            forall|k: int| 0 <= k < i ==> (#[trigger] out@[k])@ == v@[k]@,
        decreases v.len() - i,
    {
        out.push(v[i].clone());
        i += 1;
    }
    assert(saved_view(out@) =~= saved_view(v@));
    out
}

/// A set with every row cleared, not negated, and nothing parked.
pub open spec fn cleared_set(s: SetView) -> SetView {
    SetView { fields: s.fields.map_values(|f: FieldView| cleared_row(f)), negated: false, unresolved: Seq::empty() }
}

impl TaskFilterSet {
    /// The same rows with everything typed into them taken out; the match
    /// modes stay, so a new set inherits the ones the user picked.
    pub fn cleared(&self) -> (r: Self)
        ensures
            r@ == cleared_set(self@),
    {
        let fields = cleared_rows(&self.fields);
        let r = TaskFilterSet { fields, negated: false, unresolved: Vec::new() };
        assert(saved_view(r.unresolved@) =~= Seq::<SavedView>::empty());
        r
    }

    /// How many rows of the set filter something.
    pub fn active_filter_count(&self) -> (r: usize)
        ensures
            r == count_active(self@.fields),
    {
        let ghost fs = self@.fields;
        let mut n: usize = 0;
        let mut i: usize = 0;
        while i < self.fields.len()
            invariant
                i <= self.fields.len(),
                fs == fields_view(self.fields@),
                n == count_active(fs.take(i as int)),
                n <= i,
            decreases self.fields.len() - i,
        {
            assert(fs.take(i as int + 1).drop_last() == fs.take(i as int));
            assert(fs.take(i as int + 1).last() == fs[i as int]);
            if self.fields[i].is_active() {
                n += 1;
            }
            i += 1;
        }
        assert(fs.take(i as int) == fs);
        n
    }
}


/// Where the first row keyed `key` stands, at or after `i`, or -1.
pub open spec fn key_from(fs: Seq<FieldView>, key: Seq<char>, i: int) -> int
    decreases fs.len() - i,
{
    if i < 0 || i >= fs.len() {
        -1
    } else if fs[i].key == key {
        i
    } else {
        key_from(fs, key, i + 1)
    }
}

/// Where the first row keyed `key` stands, or -1.
pub open spec fn row_keyed(fs: Seq<FieldView>, key: Seq<char>) -> int {
    key_from(fs, key, 0)
}

proof fn lemma_key_from_range(fs: Seq<FieldView>, key: Seq<char>, i: int)
    requires
        0 <= i,
    ensures
        key_from(fs, key, i) == -1 || (i <= key_from(fs, key, i) < fs.len() && fs[key_from(fs, key, i)].key == key),
    decreases fs.len() - i,
{
    if i < fs.len() && fs[i].key != key {
        lemma_key_from_range(fs, key, i + 1);
    }
}

/// Finds the first row keyed `key`.
pub fn find_row(fields: &Vec<TaskFilterFieldState>, key: &str) -> (r: Option<usize>)
    ensures
        match r {
            Some(i) => i == row_keyed(fields_view(fields@), key@) && i < fields@.len(),
            None => row_keyed(fields_view(fields@), key@) == -1,
        },
{
    let ghost fs = fields_view(fields@);
    let want = chars_of(key);
    let mut i: usize = 0;
    while i < fields.len()
        invariant
            i <= fields.len(),
            fs == fields_view(fields@),
            want@ == key@,
            key_from(fs, key@, 0) == key_from(fs, key@, i as int),
        decreases fields.len() - i,
    {
        if eq_chars(&chars_of(fields[i].spec.key.as_str()), &want) {
            return Some(i);
        }
        i += 1;
    }
    None
}

/// The mode a saved value names, if it names one.
pub open spec fn saved_mode(saved: SavedView) -> Option<TaskFieldStringMode> {
    match saved.string_mode {
        Some(m) => mode_named(m),
        None => None,
    }
}

/// Whether a row refuses a saved value: it names `list` for a row with no
/// directory behind it.
pub open spec fn refuses(f: FieldView, saved: SavedView) -> bool {
    saved_mode(saved) == Some(TaskFieldStringMode::List) && !f.completes
}

/// A row after taking a saved value: the mode it names, its negation, its
/// require-empty where the row can be empty, and otherwise its query, with
/// the caret at the end.
pub open spec fn took_saved(f: FieldView, saved: SavedView) -> FieldView {
    let mode = match saved_mode(saved) {
        Some(m) => m,
        None => f.string_mode,
    };
    let empty = saved.empty && f.can_be_empty;
    let g = FieldView { string_mode: mode, negated: saved.negated, empty_required: empty, ..f };
    if empty {
        FieldView { value: (Seq::empty(), 0), label_values: Seq::empty(), label_cursor: 0, ..g }
    } else if f.kind == TaskFieldFilterKind::Labels {
        let lv = label_values_of(saved.query);
        FieldView { label_values: lv, label_cursor: 0, value: (joined(lv), joined(lv).len() as int), ..g }
    } else {
        FieldView { value: (saved.query, saved.query.len() as int), ..g }
    }
}

/// A set after offering it one saved value, and whether a row took it: the
/// first row with the value's key, unless it refuses the value.
pub open spec fn offer_saved(s: SetView, saved: SavedView) -> (SetView, bool) {
    let i = row_keyed(s.fields, saved.key);
    if i < 0 || refuses(s.fields[i], saved) {
        (s, false)
    } else {
        (SetView { fields: s.fields.update(i, took_saved(s.fields[i], saved)), ..s }, true)
    }
}

/// A set after offering it saved values in turn: what no row takes is
/// parked after what is parked already.
pub open spec fn offer_all(s: SetView, saved: Seq<SavedView>) -> SetView
    decreases saved.len(),
{
    if saved.len() == 0 {
        s
    } else {
        let before = offer_all(s, saved.drop_last());
        let (after, took) = offer_saved(before, saved.last());
        if took { after } else { SetView { unresolved: after.unresolved.push(saved.last()), ..after } }
    }
}

/// The saved values of the rows that filter something, in row order.
pub open spec fn saved_rows(fs: Seq<FieldView>) -> Seq<SavedView>
    decreases fs.len(),
{
    if fs.len() == 0 {
        Seq::empty()
    } else {
        let rest = saved_rows(fs.drop_last());
        match saved_of(fs.last()) {
            Some(v) => rest.push(v),
            None => rest,
        }
    }
}

impl TaskFilterSet {
    /// Writes one saved value onto the first row with its key, answering
    /// whether a row took it.
    pub fn apply_saved_field(&mut self, saved: &SavedFilterField) -> (r: bool)
        ensures
            (final(self)@, r) == offer_saved(old(self)@, saved@),
    {
        let ghost s0 = self@;
        let i = match find_row(&self.fields, saved.key.as_str()) {
            Some(i) => i,
            None => return false,
        };
        let mode = match &saved.string_mode {
            Some(m) => parse_string_mode(m.as_str()),
            None => None,
        };
        assert(mode == saved_mode(saved@));
        if let Some(m) = mode {
            if m == TaskFieldStringMode::List && !self.fields[i].spec.completes {
                return false;
            }
        }
        let ghost before = self.fields@;
        let mut field = self.fields.remove(i);
        assert(field@ == s0.fields[i as int]);
        if let Some(m) = mode {
            field.string_mode = m;
        }
        field.negated = saved.negated;
        field.empty_required = saved.empty && field.spec.can_be_empty;
        if field.empty_required {
            field.value.clear();
            field.label_values = Vec::new();
            field.label_cursor = 0;
            assert(texts(field.label_values@) == Seq::<Seq<char>>::empty());
        } else {
            match field.spec.kind {
                TaskFieldFilterKind::Labels => {
                    field.label_values = parse_label_values(saved.query.as_str());
                    field.label_cursor = 0;
                    let text = join_labels(&field.label_values);
                    field.value.set_text_at_end(text.as_str());
                },
                _ => field.value.set_text_at_end(saved.query.as_str()),
            }
        }
        assert(field@ == took_saved(s0.fields[i as int], saved@));
        self.fields.insert(i, field);
        assert(self.fields@ == before.update(i as int, field));
        assert(fields_view(self.fields@) =~= s0.fields.update(i as int, took_saved(s0.fields[i as int], saved@)));
        true
    }

    /// Offers saved values in turn, parking what no row takes.
    fn offer_each(&mut self, saved: &Vec<SavedFilterField>)
        ensures
            final(self)@ == offer_all(old(self)@, saved_view(saved@)),
    {
        let ghost s0 = self@;
        let ghost sv = saved_view(saved@);
        let mut j: usize = 0;
        while j < saved.len()
            invariant
                j <= saved.len(),
                sv == saved_view(saved@),
                self@ == offer_all(s0, sv.take(j as int)),
            decreases saved.len() - j,
        {
            assert(sv.take(j as int + 1).drop_last() == sv.take(j as int));
            assert(sv.take(j as int + 1).last() == saved@[j as int]@);
            let took = self.apply_saved_field(&saved[j]);
            if !took {
                let ghost before = self.unresolved@;
                self.unresolved.push(saved[j].clone());
                assert(saved_view(self.unresolved@) =~= saved_view(before).push(saved@[j as int]@));
            }
            j += 1;
        }
        assert(sv.take(j as int) == sv);
    }

    /// Writes a saved set over the rows: every row is cleared first, and
    /// what has no row to land on is parked.
    pub fn apply_saved(&mut self, saved: &SavedFilterSet)
        ensures
            final(self)@ == offer_all(
                SetView {
                    fields: old(self)@.fields.map_values(|f: FieldView| cleared_row(f)),
                    negated: saved.negated,
                    unresolved: Seq::empty(),
                },
                saved_view(saved.fields@),
            ),
    {
        self.fields = cleared_rows(&self.fields);
        self.negated = saved.negated;
        self.unresolved = Vec::new();
        assert(saved_view(self.unresolved@) =~= Seq::<SavedView>::empty());
        self.offer_each(&saved.fields);
    }

    /// The set as it is saved: the rows that filter something, then what is
    /// parked.
    pub fn to_saved(&self) -> (r: SavedFilterSet)
        ensures
            r.negated == self.negated,
            saved_view(r.fields@) == saved_rows(self@.fields) + self@.unresolved,
    {
        let ghost fs = self@.fields;
        let mut out: Vec<SavedFilterField> = Vec::new();
        let mut i: usize = 0;
        while i < self.fields.len()
            invariant
                i <= self.fields.len(),
                fs == fields_view(self.fields@),
                saved_view(out@) == saved_rows(fs.take(i as int)),
            decreases self.fields.len() - i,
        {
            assert(fs.take(i as int + 1).drop_last() == fs.take(i as int));
            assert(fs.take(i as int + 1).last() == fs[i as int]);
            let ghost before = out@;
            match self.fields[i].to_saved() {
                Some(v) => {
                    out.push(v);
                    assert(saved_view(out@) =~= saved_view(before).push(out@.last()@));
                },
                None => {},
            }
            i += 1;
        }
        assert(fs.take(i as int) == fs);
        let ghost rows = out@;
        let mut j: usize = 0;
        while j < self.unresolved.len()
            invariant
                j <= self.unresolved.len(),
                saved_view(out@) == saved_view(rows) + saved_view(self.unresolved@).take(j as int),
            decreases self.unresolved.len() - j,
        {
            let ghost before = out@;
            out.push(self.unresolved[j].clone());
            assert(saved_view(out@) =~= saved_view(before).push(self.unresolved@[j as int]@));
            assert(saved_view(self.unresolved@).take(j as int + 1)
                =~= saved_view(self.unresolved@).take(j as int).push(self.unresolved@[j as int]@));
            j += 1;
        }
        assert(saved_view(self.unresolved@).take(j as int) == saved_view(self.unresolved@));
        SavedFilterSet { negated: self.negated, fields: out }
    }
}


/// A row carrying over what the user put in an older copy of it: its mode,
/// its require-empty where the row can still be empty, its negation, and its
/// value. A labels row takes the older label values, or reads them from the
/// older text when it had none, and its text is those values joined; the
/// caret stays where it was, held to the new text.
pub open spec fn restored_row(f: FieldView, old: FieldView) -> FieldView {
    let labels = f.kind == TaskFieldFilterKind::Labels;
    let lv = if !labels {
        f.label_values
    } else if old.label_values.len() == 0 {
        label_values_of(old.value.0)
    } else {
        old.label_values
    };
    let top = if lv.len() == 0 { 0 } else { lv.len() - 1 };
    let cursor = if !labels { f.label_cursor } else if old.label_cursor <= top { old.label_cursor } else { top };
    let text = if labels { joined(lv) } else { old.value.0 };
    let caret = if old.value.1 <= text.len() { old.value.1 } else { text.len() as int };
    FieldView {
        string_mode: old.string_mode,
        empty_required: old.empty_required && f.can_be_empty,
        negated: old.negated,
        label_values: lv,
        label_cursor: cursor,
        value: (text, caret),
        ..f
    }
}

/// Each row restored from the first older row with its key, where there is
/// one.
pub open spec fn restored_rows(fs: Seq<FieldView>, prev: Seq<FieldView>) -> Seq<FieldView> {
    fs.map_values(|f: FieldView| {
        let j = row_keyed(prev, f.key);
        if j < 0 { f } else { restored_row(f, prev[j]) }
    })
}

/// A rebuilt set after carrying over an older one: the rows restored, the
/// older negation, and the older parked values offered again.
pub open spec fn restored_set(s: SetView, prev: SetView) -> SetView {
    offer_all(
        SetView { fields: restored_rows(s.fields, prev.fields), negated: prev.negated, unresolved: Seq::empty() },
        prev.unresolved,
    )
}

/// Carries one older row's user state onto a row.
fn restore_row(field: &mut TaskFilterFieldState, older: &TaskFilterFieldState)
    ensures
        final(field)@ == restored_row(old(field)@, older@),
{
    field.string_mode = older.string_mode;
    field.empty_required = older.empty_required && field.spec.can_be_empty;
    field.negated = older.negated;
    match field.spec.kind {
        TaskFieldFilterKind::Labels => {
            field.label_values = if older.label_values.len() == 0 {
                parse_label_values(older.value.text().as_str())
            } else {
                older.label_values.clone()
            };
            let n = field.label_values.len();
            let top = if n == 0 { 0 } else { n - 1 };
            field.label_cursor = if older.label_cursor <= top { older.label_cursor } else { top };
            let text = join_labels(&field.label_values);
            field.value.set_text(text.as_str());
        },
        _ => {
            let text = older.value.text();
            field.value.set_text(text.as_str());
        },
    }
    older.value.valid();
    field.value.set_caret(older.value.caret());
}

impl TaskFilterSet {
    /// Carries an older copy of the set onto freshly built rows: rows are
    /// matched by key, and the older parked values get another try, since a
    /// rebuild is when a row for them may have appeared.
    pub fn restore_from(&mut self, previous: &TaskFilterSet)
        ensures
            final(self)@ == restored_set(old(self)@, previous@),
    {
        let ghost s0 = self@;
        let ghost prev = previous@;
        let mut i: usize = 0;
        while i < self.fields.len()
            invariant
                i <= self.fields.len(),
                self.fields@.len() == s0.fields.len(),
                prev == previous@,
                forall|k: int| 0 <= k < i ==> (#[trigger] self.fields@[k])@ == restored_rows(s0.fields, prev.fields)[k],
                forall|k: int| i <= k < self.fields@.len() ==> (#[trigger] self.fields@[k])@ == s0.fields[k],
            decreases self.fields.len() - i,
        {
            let found = find_row(&previous.fields, self.fields[i].spec.key.as_str());
            match found {
                Some(j) => {
                    let ghost before = self.fields@;
                    let mut field = self.fields.remove(i);
                    restore_row(&mut field, &previous.fields[j]);
                    self.fields.insert(i, field);
                    assert(self.fields@ == before.update(i as int, field));
                },
                None => {},
            }
            i += 1;
        }
        assert(fields_view(self.fields@) =~= restored_rows(s0.fields, prev.fields));
        self.negated = previous.negated;
        self.unresolved = Vec::new();
        assert(saved_view(self.unresolved@) =~= Seq::<SavedView>::empty());
        self.offer_each(&previous.unresolved);
    }
}


/// The sets as plain values.
pub open spec fn sets_view(v: Seq<TaskFilterSet>) -> Seq<SetView> {
    v.map_values(|s: TaskFilterSet| s@)
}

/// How far one set lets the server narrow the due dates: the ordinals of
/// the first and the last day, each end open (`None`) or closed; `None` when
/// the set narrows nothing, because it is negated, has no due row, or its
/// due row is negated, asks for no date, or holds no date query.
pub open spec fn set_due_window(s: SetView, today: (int, int, int)) -> Option<(Option<int>, Option<int>)> {
    let i = row_keyed(s.fields, "due"@);
    if s.negated || i < 0 {
        None
    } else {
        let f = s.fields[i];
        if f.empty_required || f.negated {
            None
        } else {
            match query_of(f.value.0, today) {
                None => None,
                Some(q) => Some((if q.2 { Some(q.0) } else { None }, if q.3 { Some(q.1) } else { None })),
            }
        }
    }
}

/// The union of the sets' windows: the earliest first day and whether some
/// set leaves the start open, the latest last day and whether some set
/// leaves the end open; `None` as soon as one set narrows nothing.
pub open spec fn due_union(sets: Seq<SetView>, today: (int, int, int)) -> Option<(Option<int>, bool, Option<int>, bool)>
    decreases sets.len(),
{
    if sets.len() == 0 {
        Some((None, false, None, false))
    } else {
        match (due_union(sets.drop_last(), today), set_due_window(sets.last(), today)) {
            (Some((a, ao, b, bo)), Some((sa, sb))) => Some((
                match sa {
                    None => a,
                    Some(d) => match a {
                        None => Some(d),
                        Some(c) => Some(if d < c { d } else { c }),
                    },
                },
                ao || sa is None,
                match sb {
                    None => b,
                    Some(d) => match b {
                        None => Some(d),
                        Some(c) => Some(if d > c { d } else { c }),
                    },
                },
                bo || sb is None,
            )),
            _ => None,
        }
    }
}

/// The due window the server may be asked for: the union's ends, each
/// dropped when some set leaves it open or when some set narrows nothing.
pub open spec fn due_window(sets: Seq<SetView>, today: (int, int, int)) -> (Option<int>, Option<int>) {
    match due_union(sets, today) {
        None => (None, None),
        Some((a, ao, b, bo)) => (if ao { None } else { a }, if bo { None } else { b }),
    }
}

/// Whether an optional ISO date spells an optional ordinal.
pub open spec fn iso_is(r: Option<String>, n: Option<int>) -> bool {
    match (r, n) {
        (Some(s), Some(d)) => s@ == iso_chars(date_of(d)),
        (None, None) => true,
        _ => false,
    }
}

/// An optional date as an optional ordinal.
pub open spec fn ord_opt(o: Option<CivilDate>) -> Option<int> {
    match o {
        Some(d) => Some(ordinal(d@)),
        None => None,
    }
}

proof fn lemma_due_union_stays_none(sets: Seq<SetView>, today: (int, int, int), n: int)
    requires
        0 <= n <= sets.len(),
        due_union(sets.take(n), today) is None,
    ensures
        due_union(sets, today) is None,
    decreases sets.len() - n,
{
    if n == sets.len() {
        assert(sets.take(n) == sets);
    } else {
        assert(sets.take(n + 1).drop_last() == sets.take(n));
        lemma_due_union_stays_none(sets, today, n + 1);
    }
}

/// Whether a query, if exact, is one day with both ends.
pub open spec fn one_day_if_exact(q: Option<(int, int, bool, bool, bool)>) -> bool {
    match q {
        Some(t) => t.4 ==> t.0 == t.1 && t.2 && t.3,
        None => true,
    }
}

proof fn lemma_exact_query_is_one_day(text: Seq<char>, today: (int, int, int))
    ensures
        one_day_if_exact(query_of(text, today)),
{
}

/// Spells an optional date.
fn iso_of(d: Option<CivilDate>) -> (r: Option<String>)
    ensures
        iso_is(r, ord_opt(d)),
{
    match d {
        Some(day) => {
            day.valid();
            proof { lemma_date_of(day@); }
            Some(day.iso())
        },
        None => None,
    }
}

/// The due window the sets let the server narrow to, on a given day, as ISO
/// dates: each end is the union's, or `None` when some set leaves it open
/// or some set narrows nothing at all.
pub fn due_date_range_at(sets: &[TaskFilterSet], today: CivilDate) -> (r: (Option<String>, Option<String>))
    ensures
        iso_is(r.0, due_window(sets_view(sets@), today@).0),
        iso_is(r.1, due_window(sets_view(sets@), today@).1),
{
    let ghost sv = sets_view(sets@);
    let mut after: Option<CivilDate> = None;
    let mut before: Option<CivilDate> = None;
    let mut after_open = false;
    let mut before_open = false;
    let mut i: usize = 0;
    while i < sets.len()
        invariant
            i <= sets.len(),
            sv == sets_view(sets@),
            due_union(sv.take(i as int), today@) == Some((ord_opt(after), after_open, ord_opt(before), before_open)),
        decreases sets.len() - i,
    {
        assert(sv.take(i as int + 1).drop_last() == sv.take(i as int));
        assert(sv.take(i as int + 1).last() == sets@[i as int]@);
        let set = &sets[i];
        let ghost w = set_due_window(set@, today@);
        let narrows = if set.negated {
            None
        } else {
            match find_row(&set.fields, "due") {
                None => None,
                Some(j) => {
                    let field = &set.fields[j];
                    if field.empty_required || field.negated {
                        None
                    } else {
                        proof { lemma_exact_query_is_one_day(field@.value.0, today@); }
                        match DateQuery::parse(field.value.chars(), today) {
                            None => None,
                            Some(DateQuery::Exact(d)) => Some((Some(d), Some(d))),
                            Some(DateQuery::Range { start, end }) => Some((start, end)),
                        }
                    }
                },
            }
        };
        proof {
            reveal_strlit("due");
        }
        assert(match narrows {
            None => w is None,
            Some((sa, sb)) => w == Some((ord_opt(sa), ord_opt(sb))),
        });
        match narrows {
            None => {
                proof { lemma_due_union_stays_none(sv, today@, i as int + 1); }
                return (None, None);
            },
            Some((sa, sb)) => {
                match sa {
                    None => after_open = true,
                    Some(d) => {
                        after = Some(match after {
                            None => d,
                            Some(c) => if d.ordinal() < c.ordinal() { d } else { c },
                        });
                    },
                }
                match sb {
                    None => before_open = true,
                    Some(d) => {
                        before = Some(match before {
                            None => d,
                            Some(c) => if d.ordinal() > c.ordinal() { d } else { c },
                        });
                    },
                }
            },
        }
        i += 1;
    }
    assert(sv.take(i as int) == sv);
    let a = if after_open { None } else { iso_of(after) };
    let b = if before_open { None } else { iso_of(before) };
    (a, b)
}

/// The due window the sets let the server narrow to today, as ISO dates.
pub fn due_date_range_for_query(sets: &[TaskFilterSet]) -> (r: (Option<String>, Option<String>))
    ensures
        exists|today: (int, int, int)| valid_ymd(today)
            && iso_is(r.0, #[trigger] due_window(sets_view(sets@), today).0)
            && iso_is(r.1, due_window(sets_view(sets@), today).1),
{
    let day = crate::date::today();
    day.valid();
    due_date_range_at(sets, day)
}


/// A cleared set filters nothing: it accepts every task.
pub proof fn lemma_a_cleared_set_accepts_everything(
    s: SetView,
    today: (int, int, int),
    me: Option<Seq<char>>,
    record: Seq<ReadingView>,
)
    ensures
        prepared_set(cleared_set(s), today, me).fields.len() == 0,
        set_accepts(prepared_set(cleared_set(s), today, me), record),
{
    let c = cleared_set(s);
    assert forall|k: int| 0 <= k < c.fields.len() implies !row_active(#[trigger] c.fields[k]) by {
        assert(c.fields[k].value.0.len() == 0);
    }
    lemma_an_empty_set_accepts_everything(c, today, me, record);
}

/// A row written out as a saved value and read back onto the same row,
/// cleared, filters exactly as before: it is as active, makes the same
/// test, and is as negated. Asked of rows the editor can build: one asking
/// for no value can be empty, `list` is only on rows with a directory, and
/// a labels row's text is its values joined, which its text lists back.
pub proof fn lemma_a_saved_row_reads_back(f: FieldView, today: (int, int, int), me: Option<Seq<char>>)
    requires
        row_active(f),
        f.empty_required ==> f.can_be_empty,
        f.string_mode == TaskFieldStringMode::List ==> f.completes,
        f.kind == TaskFieldFilterKind::Labels ==> f.value.0 == joined(f.label_values)
            && label_values_of(f.value.0) == f.label_values,
    ensures
        saved_of(f) is Some,
        !refuses(cleared_row(f), saved_of(f).unwrap()),
        row_active(took_saved(cleared_row(f), saved_of(f).unwrap())) == row_active(f),
        matcher_of(took_saved(cleared_row(f), saved_of(f).unwrap()), today, me) == matcher_of(f, today, me),
        took_saved(cleared_row(f), saved_of(f).unwrap()).negated == f.negated,
{
    lemma_mode_name_round_trip(f.string_mode);
    let v = saved_of(f).unwrap();
    let g = took_saved(cleared_row(f), v);
    assert(g.string_mode == f.string_mode);
    assert(g.empty_required == f.empty_required);
    if !f.empty_required {
        if f.kind == TaskFieldFilterKind::Labels {
            assert(g.label_values == f.label_values);
            assert(g.value.0 == f.value.0);
        } else {
            assert(g.value.0 == f.value.0);
        }
    }
}

/// A row in the shape the editor keeps it: asking for no value only where
/// the field can be empty, the caret inside the text, a labels row's text
/// its values joined with its cursor on one of them, and no label values on
/// any other row.
pub open spec fn row_wf(f: FieldView) -> bool {
    &&& f.empty_required ==> f.can_be_empty
    &&& 0 <= f.value.1 <= f.value.0.len()
    &&& if f.kind == TaskFieldFilterKind::Labels {
        &&& f.value.0 == joined(f.label_values)
        &&& if f.label_values.len() == 0 { f.label_cursor == 0 } else { 0 <= f.label_cursor < f.label_values.len() }
    } else {
        f.label_values.len() == 0 && f.label_cursor == 0
    }
}

/// No two rows share a key.
pub open spec fn keys_unique(fs: Seq<FieldView>) -> bool {
    forall|i: int, j: int| 0 <= i < j < fs.len() ==> #[trigger] fs[i].key != #[trigger] fs[j].key
}

/// No parked value has a row that would take it.
pub open spec fn parked_for_good(s: SetView) -> bool {
    forall|k: int| 0 <= k < s.unresolved.len() ==> !(#[trigger] offer_saved(s, s.unresolved[k])).1
}

proof fn lemma_row_keyed_finds(fs: Seq<FieldView>, i: int, j: int)
    requires
        keys_unique(fs),
        0 <= j <= i < fs.len(),
    ensures
        key_from(fs, fs[i].key, j) == i,
    decreases i - j,
{
    if j < i {
        assert(fs[j].key != fs[i].key);
        lemma_row_keyed_finds(fs, i, j + 1);
    }
}

proof fn lemma_offers_all_parked(t: SetView, us: Seq<SavedView>)
    requires
        forall|k: int| 0 <= k < us.len() ==> !(#[trigger] offer_saved(t, us[k])).1,
    ensures
        offer_all(t, us) == (SetView { unresolved: t.unresolved + us, ..t }),
    decreases us.len(),
{
    if us.len() == 0 {
        assert(t.unresolved + us == t.unresolved);
    } else {
        let init = us.drop_last();
        assert forall|k: int| 0 <= k < init.len() implies !(#[trigger] offer_saved(t, init[k])).1 by {
            assert(init[k] == us[k]);
            assert(offer_saved(t, us[k]).1 == offer_saved(t, init[k]).1);
        }
        lemma_offers_all_parked(t, init);
        let before = offer_all(t, init);
        assert(offer_saved(t, us[us.len() - 1]).1 == false);
        assert(before.fields == t.fields);
        assert(offer_saved(before, us.last()).1 == offer_saved(t, us.last()).1);
        assert(t.unresolved + init.push(us.last()) == (t.unresolved + init).push(us.last()));
        assert(init.push(us.last()) == us);
    }
}

/// A rebuild keeps every set: carrying a set onto freshly built copies of
/// its own rows gives the set back, rows, negation and parked values alike,
/// for sets the editor can build whose rows have distinct keys and whose
/// parked values have no row to land on.
pub proof fn lemma_a_rebuild_keeps_the_set(prev: SetView)
    requires
        keys_unique(prev.fields),
        forall|k: int| 0 <= k < prev.fields.len() ==> row_wf(#[trigger] prev.fields[k]),
        parked_for_good(prev),
    ensures
        restored_set(cleared_set(prev), prev) == prev,
{
    let fs = prev.fields;
    let rows = restored_rows(cleared_set(prev).fields, fs);
    assert forall|i: int| 0 <= i < fs.len() implies #[trigger] rows[i] == fs[i] by {
        lemma_row_keyed_finds(fs, i, 0);
        let f = fs[i];
        assert(cleared_set(prev).fields[i] == cleared_row(f));
        let r = restored_row(cleared_row(f), f);
        if f.kind == TaskFieldFilterKind::Labels {
            if f.label_values.len() == 0 {
                assert(f.label_values == Seq::<Seq<char>>::empty());
                assert(f.value.0 == Seq::<char>::empty());
                let e = Seq::<char>::empty();
                assert(crate::filter::pieces(e) == seq![e]);
                assert(seq![e].drop_last() == Seq::<Seq<char>>::empty());
                assert(trim(e).len() == 0);
                assert(seq![e].last() == e);
                assert(crate::filter::kept_pieces(Seq::<Seq<char>>::empty()) == Seq::<Seq<char>>::empty());
                assert(crate::filter::kept_pieces(seq![e]) == Seq::<Seq<char>>::empty());
                assert(label_values_of(f.value.0) == Seq::<Seq<char>>::empty());
            }
            assert(r.label_values == f.label_values);
        } else {
            assert(f.label_values == Seq::<Seq<char>>::empty());
        }
        assert(r.value == f.value);
        assert(r == f);
    }
    assert(rows =~= fs);
    let t = SetView { fields: rows, negated: prev.negated, unresolved: Seq::empty() };
    assert forall|k: int| 0 <= k < prev.unresolved.len() implies !(#[trigger] offer_saved(t, prev.unresolved[k])).1 by {
        assert(offer_saved(prev, prev.unresolved[k]).1 == false);
        assert(t.fields == prev.fields);
    }
    lemma_offers_all_parked(t, prev.unresolved);
    assert(Seq::<SavedView>::empty() + prev.unresolved == prev.unresolved);
}

/// Whether a day lies inside a window whose ends may be open.
pub open spec fn within(after: Option<int>, before: Option<int>, day: int) -> bool {
    (after matches Some(a) ==> a <= day) && (before matches Some(b) ==> day <= b)
}

proof fn lemma_union_covers(sets: Seq<SetView>, today: (int, int, int), k: int, day: int)
    requires
        0 <= k < sets.len(),
        set_due_window(sets[k], today) matches Some(w) && within(w.0, w.1, day),
    ensures
        due_union(sets, today) matches Some(u) ==> within(if u.1 { None } else { u.0 }, if u.3 { None } else { u.2 }, day),
    decreases sets.len(),
{
    let init = sets.drop_last();
    if k < sets.len() - 1 {
        assert(init[k] == sets[k]);
        lemma_union_covers(init, today, k, day);
    }
}

/// The due window covers every set: a day that some set's due row admits
/// lies inside the window pushed to the server, so no task a set asks for
/// is left out of the fetch.
pub proof fn lemma_the_due_window_covers_every_set(sets: Seq<SetView>, today: (int, int, int), k: int, day: int)
    requires
        0 <= k < sets.len(),
        !sets[k].negated,
        row_keyed(sets[k].fields, "due"@) >= 0,
        !sets[k].fields[row_keyed(sets[k].fields, "due"@)].empty_required,
        !sets[k].fields[row_keyed(sets[k].fields, "due"@)].negated,
        query_of(sets[k].fields[row_keyed(sets[k].fields, "due"@)].value.0, today) matches Some(q)
            && crate::date_query::query_admits(q, day),
    ensures
        within(due_window(sets, today).0, due_window(sets, today).1, day),
{
    let f = sets[k].fields[row_keyed(sets[k].fields, "due"@)];
    lemma_exact_query_is_one_day(f.value.0, today);
    lemma_union_covers(sets, today, k, day);
}


/// What a row needs for its saved value to read back as the same filter:
/// where it filters, it asks for no value only where the field can be empty,
/// is in `list` only with a directory, and, as a labels row, holds its
/// values joined as its text, which lists them back.
pub open spec fn reads_back(f: FieldView) -> bool {
    row_active(f) ==> {
        &&& f.empty_required ==> f.can_be_empty
        &&& f.string_mode == TaskFieldStringMode::List ==> f.completes
        &&& f.kind == TaskFieldFilterKind::Labels ==> f.value.0 == joined(f.label_values)
            && label_values_of(f.value.0) == f.label_values
    }
}

/// The rows after the first `k` rows' saved values land on cleared copies.
pub open spec fn landed(fs: Seq<FieldView>, k: int) -> Seq<FieldView> {
    Seq::new(fs.len(), |i: int| if i < k && row_active(fs[i]) {
        took_saved(cleared_row(fs[i]), saved_of(fs[i]).unwrap())
    } else {
        cleared_row(fs[i])
    })
}

proof fn lemma_offer_all_append(s: SetView, a: Seq<SavedView>, b: Seq<SavedView>)
    ensures
        offer_all(s, a + b) == offer_all(offer_all(s, a), b),
    decreases b.len(),
{
    if b.len() == 0 {
        assert(a + b == a);
    } else {
        lemma_offer_all_append(s, a, b.drop_last());
        assert((a + b).drop_last() == a + b.drop_last());
        assert((a + b).last() == b.last());
    }
}

proof fn lemma_saved_rows_land(fs: Seq<FieldView>, negated: bool, k: int)
    requires
        0 <= k <= fs.len(),
        keys_unique(fs),
        forall|i: int| 0 <= i < fs.len() ==> reads_back(#[trigger] fs[i]),
    ensures
        offer_all(
            SetView { fields: fs.map_values(|f: FieldView| cleared_row(f)), negated, unresolved: Seq::empty() },
            saved_rows(fs.take(k)),
        ) == (SetView { fields: landed(fs, k), negated, unresolved: Seq::empty() }),
    decreases k,
{
    let c = SetView { fields: fs.map_values(|f: FieldView| cleared_row(f)), negated, unresolved: Seq::empty() };
    if k == 0 {
        assert(fs.take(0) == Seq::<FieldView>::empty());
        assert(landed(fs, 0) =~= fs.map_values(|f: FieldView| cleared_row(f)));
    } else {
        lemma_saved_rows_land(fs, negated, k - 1);
        let f = fs[k - 1];
        assert(fs.take(k).drop_last() == fs.take(k - 1));
        assert(fs.take(k).last() == f);
        let before = SetView { fields: landed(fs, k - 1), negated, unresolved: Seq::empty() };
        if row_active(f) {
            let v = saved_of(f).unwrap();
            assert(saved_rows(fs.take(k)) == saved_rows(fs.take(k - 1)).push(v));
            lemma_offer_all_append(c, saved_rows(fs.take(k - 1)), seq![v]);
            assert(saved_rows(fs.take(k - 1)).push(v) == saved_rows(fs.take(k - 1)) + seq![v]);
            let g = landed(fs, k - 1);
            assert forall|i: int, j: int| 0 <= i < j < g.len() implies #[trigger] g[i].key != #[trigger] g[j].key by {
                assert(g[i].key == fs[i].key && g[j].key == fs[j].key);
            }
            assert(g[k - 1] == cleared_row(f));
            assert(g[k - 1].key == f.key);
            lemma_row_keyed_finds(g, k - 1, 0);
            assert(v.key == f.key);
            lemma_a_saved_row_reads_back(f, (0, 0, 0), None);
            let (after, took) = offer_saved(before, v);
            assert(took);
            assert(after.fields =~= landed(fs, k));
            assert(offer_all(before, seq![v]) == after) by {
                assert(seq![v].drop_last() == Seq::<SavedView>::empty());
                assert(seq![v].last() == v);
                assert(offer_all(before, Seq::<SavedView>::empty()) == before);
            }
        } else {
            assert(saved_rows(fs.take(k)) == saved_rows(fs.take(k - 1)));
            assert(landed(fs, k) =~= landed(fs, k - 1));
        }
    }
}

proof fn lemma_same_active_fields(g: Seq<FieldView>, f: Seq<FieldView>, today: (int, int, int), me: Option<Seq<char>>)
    requires
        g.len() == f.len(),
        forall|i: int| 0 <= i < f.len() ==> row_active(#[trigger] g[i]) == row_active(f[i]),
        forall|i: int| 0 <= i < f.len() && row_active(#[trigger] f[i]) ==> g[i].negated == f[i].negated
            && g[i].kind == f[i].kind && matcher_of(g[i], today, me) == matcher_of(f[i], today, me),
    ensures
        active_fields(g, today, me) == active_fields(f, today, me),
    decreases f.len(),
{
    if f.len() > 0 {
        let gi = g.drop_last();
        let fi = f.drop_last();
        assert forall|i: int| 0 <= i < fi.len() implies row_active(#[trigger] gi[i]) == row_active(fi[i]) by {
            assert(gi[i] == g[i] && fi[i] == f[i]);
        }
        assert forall|i: int| 0 <= i < fi.len() && row_active(#[trigger] fi[i]) implies gi[i].negated == fi[i].negated
            && gi[i].kind == fi[i].kind && matcher_of(gi[i], today, me) == matcher_of(fi[i], today, me) by {
            assert(gi[i] == g[i] && fi[i] == f[i]);
        }
        lemma_same_active_fields(gi, fi, today, me);
        assert(row_active(g.last()) == row_active(f.last()));
    }
}

/// A set written out and read back onto cleared copies of its rows filters
/// exactly as it did, is as negated, and keeps what it had parked: for sets
/// whose rows have distinct keys and can be read back, and whose parked
/// values have no row to land on.
pub proof fn lemma_a_saved_set_reads_back(s: SetView, today: (int, int, int), me: Option<Seq<char>>)
    requires
        keys_unique(s.fields),
        forall|i: int| 0 <= i < s.fields.len() ==> reads_back(#[trigger] s.fields[i]),
        forall|k: int| 0 <= k < s.unresolved.len() ==> {
            let j = row_keyed(s.fields, (#[trigger] s.unresolved[k]).key);
            j < 0 || refuses(s.fields[j], s.unresolved[k])
        },
    ensures
        ({
            let t = offer_all(
                SetView { fields: s.fields.map_values(|f: FieldView| cleared_row(f)), negated: s.negated, unresolved: Seq::empty() },
                saved_rows(s.fields) + s.unresolved,
            );
            &&& prepared_set(t, today, me) == prepared_set(s, today, me)
            &&& t.negated == s.negated
            &&& t.unresolved == s.unresolved
        }),
{
    let fs = s.fields;
    let c = SetView { fields: fs.map_values(|f: FieldView| cleared_row(f)), negated: s.negated, unresolved: Seq::empty() };
    lemma_offer_all_append(c, saved_rows(fs), s.unresolved);
    lemma_saved_rows_land(fs, s.negated, fs.len() as int);
    assert(fs.take(fs.len() as int) == fs);
    let g = landed(fs, fs.len() as int);
    let mid = SetView { fields: g, negated: s.negated, unresolved: Seq::empty() };
    assert forall|k: int| 0 <= k < s.unresolved.len() implies !(#[trigger] offer_saved(mid, s.unresolved[k])).1 by {
        let u = s.unresolved[k];
        let j = row_keyed(fs, u.key);
        assert forall|i: int| 0 <= i < g.len() implies #[trigger] g[i].key == fs[i].key by {}
        lemma_same_keys(g, fs, u.key, 0);
        if j >= 0 {
            lemma_key_from_range(fs, u.key, 0);
            assert(g[j].completes == fs[j].completes);
        }
    }
    lemma_offers_all_parked(mid, s.unresolved);
    assert(Seq::<SavedView>::empty() + s.unresolved == s.unresolved);
    assert forall|i: int| 0 <= i < fs.len() implies row_active(#[trigger] g[i]) == row_active(fs[i]) by {
        if row_active(fs[i]) {
            lemma_a_saved_row_reads_back(fs[i], today, me);
        } else {
            assert(g[i] == cleared_row(fs[i]));
            assert(g[i].value.0.len() == 0);
        }
    }
    assert forall|i: int| 0 <= i < fs.len() && row_active(#[trigger] fs[i]) implies g[i].negated == fs[i].negated
        && g[i].kind == fs[i].kind && matcher_of(g[i], today, me) == matcher_of(fs[i], today, me) by {
        lemma_a_saved_row_reads_back(fs[i], today, me);
    }
    lemma_same_active_fields(g, fs, today, me);
}

proof fn lemma_same_keys(g: Seq<FieldView>, f: Seq<FieldView>, key: Seq<char>, i: int)
    requires
        g.len() == f.len(),
        forall|k: int| 0 <= k < g.len() ==> #[trigger] g[k].key == f[k].key,
        0 <= i,
    ensures
        key_from(g, key, i) == key_from(f, key, i),
    decreases f.len() - i,
{
    if i < f.len() {
        lemma_same_keys(g, f, key, i + 1);
    }
}

} // verus!
