//! Session state for the Gantt chart: what it is coloured by, how many table
//! columns share the pane with it, where the timeline points, and the colour
//! dialog.

use vstd::prelude::*;
use crate::date::{CivilDate, clamp_ordinal, ordinal, first_of, days_in, today, max_ordinal};
use crate::text::{chars_of, concat_chars, eq_chars, string_from_chars, trim, trim_chars};

verus! {

/// How many palette slots the movable values can take.
pub const PALETTE_SLOTS: usize = 6;

/// The window lengths zooming steps between, in days.
pub open spec fn ladder(i: int) -> int {
    if i == 0 { 7 } else if i == 1 { 14 } else if i == 2 { 30 } else if i == 3 { 60 }
    else if i == 4 { 90 } else if i == 5 { 180 } else if i == 6 { 365 } else if i == 7 { 730 } else { 1825 }
}

/// The number of rungs on the zoom ladder.
pub const LADDER_LEN: usize = 9;

fn ladder_exec(i: usize) -> (r: u32)
    requires
        i < LADDER_LEN,
    ensures
        r == ladder(i as int),
{
    if i == 0 { 7 } else if i == 1 { 14 } else if i == 2 { 30 } else if i == 3 { 60 }
    else if i == 4 { 90 } else if i == 5 { 180 } else if i == 6 { 365 } else if i == 7 { 730 } else { 1825 }
}

/// What the bars are coloured by.
#[derive(Clone, Debug, PartialEq, Eq)]
pub enum GanttColorKey {
    Assignee,
    Section,
    State,
    /// An enumerated custom field, by its label.
    Field(String),
}

/// The name a colour key is stored under.
pub open spec fn key_name(k: GanttColorKey) -> Seq<char> {
    match k {
        GanttColorKey::Assignee => "assignee"@,
        GanttColorKey::Section => "section"@,
        GanttColorKey::State => "state"@,
        GanttColorKey::Field(n) => "field:"@ + n@,
    }
}

/// The label of a field key, `None` for the built-in dimensions.
pub open spec fn field_label(k: GanttColorKey) -> Option<Seq<char>> {
    match k {
        GanttColorKey::Field(n) => Some(n@),
        _ => None,
    }
}

impl GanttColorKey {
    /// The name this key is stored under.
    pub fn name(&self) -> (r: Vec<char>)
        ensures
            r@ == key_name(*self),
    {
        match self {
            GanttColorKey::Assignee => chars_of("assignee"),
            GanttColorKey::Section => chars_of("section"),
            GanttColorKey::State => chars_of("state"),
            GanttColorKey::Field(n) => concat_chars(&chars_of("field:"), &chars_of(n.as_str())),
        }
    }

    /// A copy of the key.
    pub fn duplicate(&self) -> (r: GanttColorKey)
        ensures
            key_name(r) == key_name(*self),
    {
        match self {
            GanttColorKey::Assignee => GanttColorKey::Assignee,
            GanttColorKey::Section => GanttColorKey::Section,
            GanttColorKey::State => GanttColorKey::State,
            GanttColorKey::Field(n) => GanttColorKey::Field(n.clone()),
        }
    }

    /// The key a stored name means: a field for `field:<label>`, the named
    /// built-in otherwise, and the assignee for anything unknown.
    pub fn from_name(name: &str) -> (r: GanttColorKey)
        ensures
            name@ == "section"@ ==> r == GanttColorKey::Section,
            name@ == "state"@ ==> r == GanttColorKey::State,
            name@ != "section"@ && name@ != "state"@ && !(name@.len() >= 6 && name@.take(6) == "field:"@)
                ==> r == GanttColorKey::Assignee,
            name@.len() >= 6 && name@.take(6) == "field:"@ ==> field_label(r) == Some(name@.skip(6)),
            key_name(r) == canonical_name(name@),
    {
        proof {
            reveal_strlit("section");
            reveal_strlit("state");
            reveal_strlit("field:");
            assert("section"@.take(6)[0] != "field:"@[0]);
        }
        let c = chars_of(name);
        let prefix = chars_of("field:");
        if crate::text::is_word(&c, "section") {
            GanttColorKey::Section
        } else if crate::text::is_word(&c, "state") {
            GanttColorKey::State
        } else if c.len() >= 6 && eq_chars(&crate::text::slice_chars(&c, 0, 6), &prefix) {
            assert(c@.subrange(0, 6) == c@.take(6));
            let rest = crate::text::slice_chars(&c, 6, c.len());
            assert(rest@ == c@.skip(6));
            assert(c@ == c@.take(6) + c@.skip(6));
            GanttColorKey::Field(crate::text::string_from_chars(&rest))
        } else {
            proof {
                if c@.len() >= 6 {
                    assert(c@.subrange(0, 6) == c@.take(6));
                }
            }
            GanttColorKey::Assignee
        }
    }
}

/// Where a value draws.
#[derive(Clone, Copy, Debug, PartialEq, Eq, Structural)]
pub enum ColorSlot {
    Indexed(usize),
    Neutral,
}

/// The span of days a fitted chart covers.
#[derive(Clone, Copy, Debug, PartialEq, Eq)]
pub struct Timeline {
    pub start: CivilDate,
    pub end: CivilDate,
}

impl Timeline {
    /// How many days the span covers, both ends included.
    pub fn days(&self) -> (r: u32)
        requires
            ordinal(self.start@) <= ordinal(self.end@),
        ensures
            r == ordinal(self.end@) - ordinal(self.start@) + 1,
    {
        (self.end.ordinal() - self.start.ordinal() + 1) as u32
    }

    /// The whole months the dates fall in, from the first of the earliest
    /// date's month to the last of the latest's, and at least `min_days`
    /// long; `None` with no dates.
    pub fn fit(dates: Vec<CivilDate>, min_days: u32) -> (r: Option<Timeline>)
        ensures
            r is Some <==> dates.len() > 0,
            r matches Some(t) ==> ordinal(t.start@) <= ordinal(t.end@),
            r matches Some(t) ==> forall|i: int| 0 <= i < dates.len() ==>
                ordinal(t.start@) <= #[trigger] ordinal(dates@[i]@) <= ordinal(t.end@),
            r matches Some(t) ==> exists|i: int, j: int| 0 <= i < dates.len() && 0 <= j < dates.len()
                && (forall|k: int| 0 <= k < dates.len() ==> ordinal(dates@[i]@) <= #[trigger] ordinal(dates@[k]@) <= ordinal(dates@[j]@))
                && t.start@ == first_of(dates@[i]@)
                && ordinal(t.end@) == (if ordinal((dates@[j]@.0, dates@[j]@.1, days_in(dates@[j]@.0, dates@[j]@.1))) < clamp_ordinal(ordinal(t.start@) + min_days - 1)
                    { clamp_ordinal(ordinal(t.start@) + min_days - 1) }
                    else { ordinal((dates@[j]@.0, dates@[j]@.1, days_in(dates@[j]@.0, dates@[j]@.1))) }),
    {
        if dates.len() == 0 {
            return None;
        }
        let mut lo_i: usize = 0;
        let mut hi_i: usize = 0;
        let mut i: usize = 1;
        while i < dates.len()
            invariant
                1 <= i <= dates.len(),
                lo_i < i,
                hi_i < i,
                forall|j: int| 0 <= j < i ==> ordinal(dates@[lo_i as int]@) <= #[trigger] ordinal(dates@[j]@) <= ordinal(dates@[hi_i as int]@),
            decreases dates.len() - i,
        {
            if dates[i].is_before(&dates[lo_i]) {
                lo_i = i;
            }
            if dates[hi_i].is_before(&dates[i]) {
                hi_i = i;
            }
            i += 1;
        }
        let lo = dates[lo_i];
        let hi = dates[hi_i];
        lo.valid();
        hi.valid();
        let start = lo.first_of_month();
        let month_end = hi.with_day(31);
        let reach = start.add_days(min_days as i64 - 1);
        let end = if month_end.is_before(&reach) { reach } else { month_end };
        proof {
            crate::date::lemma_ordinal_range(lo@);
            crate::date::lemma_ordinal_range(hi@);
            crate::date::lemma_ordinal_range(month_end@);
            crate::date::lemma_ordinal_range(start@);
        }
        Some(Timeline { start, end })
    }
}

/// Where the timeline points: fitted to the data, or a window the user moved.
#[derive(Clone, Copy, Debug, PartialEq, Eq)]
pub enum TimelineView {
    Fit,
    Window { start: CivilDate, days: u32 },
}

/// Where a move sends the selected value.
#[derive(Clone, Copy, Debug, PartialEq, Eq, Structural)]
pub enum MoveTo {
    Up,
    Down,
    Top,
    Bottom,
}

/// One row of the colour dialog.
#[derive(Debug, PartialEq, Eq)]
pub struct OrderEntry {
    /// The value being coloured.
    pub value: String,
    /// How many task rows carry it.
    pub task_count: usize,
    /// Whether it can be reordered; the empty value cannot.
    pub movable: bool,
}

/// An order entry as plain values.
pub type EntryView = (Seq<char>, int, bool);

impl DeepView for OrderEntry {
    type V = EntryView;

    open spec fn deep_view(&self) -> EntryView {
        (self.value@, self.task_count as int, self.movable)
    }
}

impl Clone for OrderEntry {
    fn clone(&self) -> (r: Self)
        ensures
            r.deep_view() == self.deep_view(),
    {
        OrderEntry { value: self.value.clone(), task_count: self.task_count, movable: self.movable }
    }
}

/// The colour-order configuration of the chart.
#[derive(Debug)]
pub struct GanttConfig {
    pub visible: bool,
    pub columns: usize,
    pub color_by: String,
    /// Each dimension's colour order, by the dimension's stored name.
    pub order: Vec<(String, Vec<String>)>,
}

impl Default for GanttConfig {
    /// The starting configuration: hidden, two columns, coloured by
    /// assignee, no orders.
    fn default() -> (r: GanttConfig)
        ensures
            !r.visible,
            r.columns == 2,
            r.color_by@ == "assignee"@,
            r.order@.len() == 0,
    {
        GanttConfig { visible: false, columns: 2, color_by: "assignee".to_owned(), order: Vec::new() }
    }
}

impl GanttConfig {
    /// The dimension `color_by` names.
    pub fn color_key(&self) -> (r: GanttColorKey)
        ensures
            key_name(r) == canonical_name(self.color_by@),
    {
        GanttColorKey::from_name(self.color_by.as_str())
    }
}

/// The stored name of the dimension a configured name means: a field for
/// `field:<label>`, `section` and `state` as written, and `assignee` for
/// anything else.
pub open spec fn canonical_name(name: Seq<char>) -> Seq<char> {
    if name == "section"@ || name == "state"@ || (name.len() >= 6 && name.take(6) == "field:"@) {
        name
    } else {
        "assignee"@
    }
}

/// A dimension's stored order, as plain values: each dimension's stored
/// name and its values, first entry for a name winning.
pub type OrderView = Seq<(Seq<char>, Seq<Seq<char>>)>;

/// The characters of each string.
pub open spec fn strs(v: Seq<String>) -> Seq<Seq<char>> {
    v.map_values(|x: String| x@)
}

/// The stored orders as plain values.
pub open spec fn order_view(v: Seq<(String, Vec<String>)>) -> OrderView {
    v.map_values(|p: (String, Vec<String>)| (p.0@, strs(p.1@)))
}

/// The first position at or after `i` whose name is `key`, or -1.
pub open spec fn key_index_from(order: OrderView, key: Seq<char>, i: int) -> int
    decreases order.len() - i,
{
    if i < 0 || i >= order.len() {
        -1
    } else if order[i].0 == key {
        i
    } else {
        key_index_from(order, key, i + 1)
    }
}

/// The first position whose name is `key`, or -1.
pub open spec fn key_index(order: OrderView, key: Seq<char>) -> int {
    key_index_from(order, key, 0)
}

/// The values stored for a dimension, if any.
pub open spec fn lookup(order: OrderView, key: Seq<char>) -> Option<Seq<Seq<char>>> {
    let i = key_index(order, key);
    if i >= 0 { Some(order[i].1) } else { None }
}

/// The values stored for a dimension, empty when unset.
pub open spec fn lookup_or_empty(order: OrderView, key: Seq<char>) -> Seq<Seq<char>> {
    match lookup(order, key) {
        Some(v) => v,
        None => Seq::empty(),
    }
}

/// The orders with a dimension's values replaced, or added at the end.
pub open spec fn order_set(order: OrderView, key: Seq<char>, values: Seq<Seq<char>>) -> OrderView {
    let i = key_index(order, key);
    if i >= 0 { order.update(i, (key, values)) } else { order.push((key, values)) }
}

/// The orders without a dimension.
pub open spec fn order_remove(order: OrderView, key: Seq<char>) -> OrderView {
    let i = key_index(order, key);
    if i >= 0 { order.remove(i) } else { order }
}

proof fn lemma_key_index_from(order: OrderView, key: Seq<char>, i: int)
    requires
        0 <= i <= order.len(),
    ensures
        ({
            let r = key_index_from(order, key, i);
            &&& -1 <= r < order.len()
            &&& r >= 0 ==> i <= r && order[r].0 == key && forall|j: int| i <= j < r ==> order[j].0 != key
            &&& r == -1 ==> forall|j: int| i <= j < order.len() ==> order[j].0 != key
        }),
    decreases order.len() - i,
{
    if i < order.len() && order[i].0 != key {
        lemma_key_index_from(order, key, i + 1);
    }
}

/// What characterises the first position of a name.
proof fn lemma_key_index(order: OrderView, key: Seq<char>)
    ensures
        -1 <= key_index(order, key) < order.len(),
        key_index(order, key) >= 0 ==> order[key_index(order, key)].0 == key
            && forall|j: int| 0 <= j < key_index(order, key) ==> order[j].0 != key,
        key_index(order, key) == -1 ==> forall|j: int| 0 <= j < order.len() ==> order[j].0 != key,
{
    lemma_key_index_from(order, key, 0);
}

/// A position with those properties is the first position of the name.
proof fn lemma_key_index_is(order: OrderView, key: Seq<char>, i: int)
    requires
        -1 <= i < order.len(),
        i >= 0 ==> order[i].0 == key,
        forall|j: int| 0 <= j < order.len() && (i == -1 || j < i) ==> order[j].0 != key,
    ensures
        key_index(order, key) == i,
{
    lemma_key_index(order, key);
    let r = key_index(order, key);
    if r >= 0 && i >= 0 {
        if r < i {
            assert(order[r].0 != key);
        } else if i < r {
            assert(order[i].0 != key);
        }
    } else if r >= 0 {
        assert(order[r].0 != key);
    } else if i >= 0 {
        assert(order[i].0 != key);
    }
}

/// Setting one dimension's values leaves every other dimension's alone.
pub proof fn lemma_lookup_after_set(order: OrderView, key: Seq<char>, values: Seq<Seq<char>>, other: Seq<char>)
    ensures
        lookup(order_set(order, key, values), other) == (if other == key { Some(values) } else { lookup(order, other) }),
{
    lemma_key_index(order, key);
    lemma_key_index(order, other);
    let s = order_set(order, key, values);
    let i = key_index(order, key);
    if other == key {
        if i >= 0 {
            lemma_key_index_is(s, key, i);
        } else {
            lemma_key_index_is(s, key, order.len() as int);
        }
    } else {
        let o = key_index(order, other);
        if o >= 0 {
            assert forall|j: int| 0 <= j < s.len() && (o == -1 || j < o) implies s[j].0 != other by {
                if j < order.len() { assert(order[j].0 != other); }
            }
            lemma_key_index_is(s, other, o);
        } else {
            assert forall|j: int| 0 <= j < s.len() && (-1 == -1 || j < -1) implies s[j].0 != other by {
                if j < order.len() { assert(order[j].0 != other); }
            }
            lemma_key_index_is(s, other, -1);
        }
    }
}

/// Removing one dimension leaves every other dimension's values alone.
pub proof fn lemma_lookup_after_remove(order: OrderView, key: Seq<char>, other: Seq<char>)
    ensures
        other != key ==> lookup(order_remove(order, key), other) == lookup(order, other),
{
    lemma_key_index(order, key);
    lemma_key_index(order, other);
    let s = order_remove(order, key);
    let i = key_index(order, key);
    if other != key && i >= 0 {
        let o = key_index(order, other);
        if o >= 0 {
            let t = if o < i { o } else { o - 1 };
            assert forall|j: int| 0 <= j < s.len() && (t == -1 || j < t) implies s[j].0 != other by {
                if j < i { assert(order[j].0 != other); } else { assert(order[j + 1].0 != other); }
            }
            lemma_key_index_is(s, other, t);
        } else {
            assert forall|j: int| 0 <= j < s.len() && (-1 == -1 || j < -1) implies s[j].0 != other by {
                if j < i { assert(order[j].0 != other); } else { assert(order[j + 1].0 != other); }
            }
            lemma_key_index_is(s, other, -1);
        }
    }
}

/// The entries of a dialog as plain values.
pub open spec fn entries_view(v: Seq<OrderEntry>) -> Seq<EntryView> {
    v.map_values(|e: OrderEntry| e.deep_view())
}

/// The values of the movable entries, in order.
pub open spec fn movable_values(entries: Seq<EntryView>) -> Seq<Seq<char>>
    decreases entries.len(),
{
    if entries.len() == 0 {
        Seq::empty()
    } else {
        let rest = movable_values(entries.drop_last());
        if entries.last().2 { rest.push(entries.last().0) } else { rest }
    }
}

/// How many entries are movable.
pub open spec fn movable_count_of(entries: Seq<EntryView>) -> int {
    movable_values(entries).len() as int
}

proof fn lemma_movable_take(entries: Seq<EntryView>, i: int)
    requires
        0 <= i < entries.len(),
    ensures
        movable_values(entries.take(i + 1)) == (if entries[i].2 {
            movable_values(entries.take(i)).push(entries[i].0)
        } else {
            movable_values(entries.take(i))
        }),
{
    assert(entries.take(i + 1).drop_last() == entries.take(i));
}

proof fn lemma_movable_len(entries: Seq<EntryView>)
    ensures
        movable_count_of(entries) <= entries.len(),
    decreases entries.len(),
{
    if entries.len() > 0 {
        lemma_movable_len(entries.drop_last());
    }
}

/// The entries a dialog opens with: each value movable unless blank.
pub open spec fn entries_of(values: Seq<(Seq<char>, usize)>) -> Seq<EntryView> {
    values.map_values(|v: (Seq<char>, usize)| (v.0, v.1 as int, trim(v.0).len() > 0))
}

/// Counted values as plain values.
pub open spec fn values_view(values: Seq<(String, usize)>) -> Seq<(Seq<char>, usize)> {
    values.map_values(|v: (String, usize)| (v.0@, v.1))
}

/// The abstract state of the colour dialog.
pub struct DialogModel {
    pub key: Seq<char>,
    pub entries: Seq<EntryView>,
    pub selected: int,
    pub restore: Option<Seq<Seq<char>>>,
}

/// The cursor sits on an entry, or at the top of an empty list.
pub open spec fn dialog_wf(d: DialogModel) -> bool {
    if d.entries.len() == 0 { d.selected == 0 } else { 0 <= d.selected < d.entries.len() }
}

/// Where the cursor lands after moving by `delta`, held to the list.
pub open spec fn cursor_of(d: DialogModel, delta: int) -> int {
    let last = if d.entries.len() > 0 { d.entries.len() - 1 } else { 0 };
    let t = d.selected + delta;
    if t < 0 { 0 } else if t > last { last } else { t }
}

/// Where a move sends the selected value, given the movable count.
pub open spec fn move_target(selected: int, to: MoveTo, movable: int) -> int {
    let last = movable - 1;
    match to {
        MoveTo::Up => if selected > 0 { selected - 1 } else { 0 },
        MoveTo::Down => if selected + 1 < last { selected + 1 } else { last },
        MoveTo::Top => 0,
        MoveTo::Bottom => last,
    }
}

/// The dialog after moving the selected value: unchanged unless the
/// selected value is movable and there are two movable values to order.
pub open spec fn move_in(d: DialogModel, to: MoveTo) -> DialogModel {
    let movable = movable_count_of(d.entries);
    if !(0 <= d.selected < d.entries.len() && d.entries[d.selected].2) || movable < 2 {
        d
    } else {
        let t = move_target(d.selected, to, movable);
        DialogModel {
            key: d.key,
            entries: d.entries.remove(d.selected).insert(t, d.entries[d.selected]),
            selected: t,
            restore: d.restore,
        }
    }
}

/// The movable values of the dialog in order, then whatever the dimension
/// had before that is not among them.
pub open spec fn effective_order_of(d: DialogModel) -> Seq<Seq<char>> {
    let shown = movable_values(d.entries);
    match d.restore {
        Some(prev) => shown + prev.filter(|v: Seq<char>| !shown.contains(v)),
        None => shown,
    }
}

/// The slot an entry draws in.
pub open spec fn slot_of(entries: Seq<EntryView>, index: int) -> ColorSlot {
    if 0 <= index < entries.len() && entries[index].2 && index < PALETTE_SLOTS {
        ColorSlot::Indexed(index as usize)
    } else {
        ColorSlot::Neutral
    }
}

/// The colour dialog's state.
///
/// Every move rewrites the live order immediately; `restore` holds the order
/// the dialog opened with, which is what makes cancelling a real cancel.
#[derive(Debug)]
pub struct GanttOrderState {
    key: GanttColorKey,
    entries: Vec<OrderEntry>,
    selected: usize,
    restore: Option<Vec<String>>,
}

/// The restore order as plain values.
pub open spec fn restore_view(r: Option<Vec<String>>) -> Option<Seq<Seq<char>>> {
    match r {
        Some(v) => Some(strs(v@)),
        None => None,
    }
}

impl GanttOrderState {
    /// The dialog as plain values.
    pub closed spec fn model(&self) -> DialogModel {
        DialogModel {
            key: key_name(self.key),
            entries: entries_view(self.entries@),
            selected: self.selected as int,
            restore: restore_view(self.restore),
        }
    }

    #[verifier::type_invariant]
    closed spec fn wf(&self) -> bool {
        dialog_wf(self.model())
    }

    /// The model always has the cursor on an entry.
    pub fn well_formed(&self)
        ensures
            dialog_wf(self.model()),
    {
        proof { use_type_invariant(self); }
    }

    /// The dimension being ordered.
    pub fn key(&self) -> (r: &GanttColorKey)
        ensures
            key_name(*r) == self.model().key,
    {
        &self.key
    }

    /// The rows to draw.
    pub fn entries(&self) -> (r: &[OrderEntry])
        ensures
            entries_view(r@) == self.model().entries,
    {
        self.entries.as_slice()
    }

    /// Which row the cursor is on.
    pub fn selected(&self) -> (r: usize)
        ensures
            r == self.model().selected,
    {
        self.selected
    }

    /// The slot an entry draws in: its own index among the first palette
    /// slots when it is movable, neutral otherwise.
    pub fn slot(&self, index: usize) -> (r: ColorSlot)
        ensures
            r == slot_of(self.model().entries, index as int),
    {
        if index < self.entries.len() && self.entries[index].movable && index < PALETTE_SLOTS {
            ColorSlot::Indexed(index)
        } else {
            ColorSlot::Neutral
        }
    }

    /// How many values can be reordered, which is where the palette rule goes.
    pub fn movable_count(&self) -> (r: usize)
        ensures
            r == movable_count_of(self.model().entries),
    {
        let ghost ev = self.model().entries;
        let mut n: usize = 0;
        let mut i: usize = 0;
        while i < self.entries.len()
            invariant
                i <= self.entries.len(),
                ev == entries_view(self.entries@),
                n == movable_count_of(ev.take(i as int)),
                n <= i,
            decreases self.entries.len() - i,
        {
            proof { lemma_movable_take(ev, i as int); }
            if self.entries[i].movable {
                n += 1;
            }
            i += 1;
        }
        assert(ev.take(i as int) == ev);
        n
    }

    /// The movable values in order.
    fn movable_strings(&self) -> (r: Vec<String>)
        ensures
            strs(r@) == movable_values(self.model().entries),
    {
        let ghost ev = self.model().entries;
        let mut out: Vec<String> = Vec::new();
        let mut i: usize = 0;
        while i < self.entries.len()
            invariant
                i <= self.entries.len(),
                ev == entries_view(self.entries@),
                strs(out@) == movable_values(ev.take(i as int)),
            decreases self.entries.len() - i,
        {
            proof { lemma_movable_take(ev, i as int); }
            if self.entries[i].movable {
                out.push(self.entries[i].value.clone());
                assert(strs(out@) == movable_values(ev.take(i as int + 1)));
            }
            i += 1;
        }
        assert(ev.take(i as int) == ev);
        out
    }

    /// The order to persist: what is on screen, then anything previously
    /// configured that is not.
    fn effective_order(&self) -> (r: Vec<String>)
        ensures
            strs(r@) == effective_order_of(self.model()),
    {
        let shown = self.movable_strings();
        let mut out = shown.clone();
        assert(out@ =~= shown@);
        match &self.restore {
            None => out,
            Some(prev) => {
                let ghost sh = strs(shown@);
                let ghost pv = strs(prev@);
                let ghost f = |v: Seq<char>| !sh.contains(v);
                let mut i: usize = 0;
                while i < prev.len()
                    invariant
                        i <= prev.len(),
                        sh == strs(shown@),
                        pv == strs(prev@),
                        f == (|v: Seq<char>| !sh.contains(v)),
                        strs(out@) == sh + pv.take(i as int).filter(f),
                    decreases prev.len() - i,
                {
                    proof { reveal(Seq::filter); }
                    let ghost before = pv.take(i as int).filter(f);
                    assert(pv.take(i as int + 1).drop_last() == pv.take(i as int));
                    assert(pv.take(i as int + 1).last() == pv[i as int]);
                    assert(pv[i as int] == prev@[i as int]@);
                    let present = contains_string(&shown, &prev[i]);
                    let ghost out_before = out@;
                    if !present {
                        assert(f(pv[i as int]));
                        out.push(prev[i].clone());
                        assert(out@ == out_before.push(prev@[i as int]));
                        assert(strs(out@) == strs(out_before).push(pv[i as int]));
                        assert(pv.take(i as int + 1).filter(f) == before.push(pv[i as int]));
                        assert(strs(out@) == sh + before.push(pv[i as int]));
                    } else {
                        assert(!f(pv[i as int]));
                        assert(pv.take(i as int + 1).filter(f) == before);
                    }
                    i += 1;
                }
                assert(pv.take(i as int) == pv);
                out
            }
        }
    }
}

impl GanttOrderState {
    /// A dialog over fresh entries with the cursor at the top.
    fn opened(key: GanttColorKey, entries: Vec<OrderEntry>, restore: Option<Vec<String>>) -> (r: GanttOrderState)
        ensures
            r.model() == (DialogModel {
                key: key_name(key),
                entries: entries_view(entries@),
                selected: 0,
                restore: restore_view(restore),
            }),
    {
        GanttOrderState { key, entries, selected: 0, restore }
    }

    /// Where the cursor lands after moving by `delta`.
    fn moved_cursor(&self, delta: isize) -> (r: usize)
        requires
            self.model().selected + delta <= isize::MAX,
        ensures
            r == cursor_of(self.model(), delta as int),
    {
        proof { use_type_invariant(self); }
        let last: usize = if self.entries.len() > 0 { self.entries.len() - 1 } else { 0 };
        let t: i128 = self.selected as i128 + delta as i128;
        if t < 0 {
            0
        } else if t > last as i128 {
            last
        } else {
            t as usize
        }
    }

    /// The dialog with the cursor moved by `delta`.
    fn with_cursor(self, delta: isize) -> (r: GanttOrderState)
        requires
            self.model().selected + delta <= isize::MAX,
        ensures
            r.model() == (DialogModel { selected: cursor_of(self.model(), delta as int), ..self.model() }),
    {
        let selected = self.moved_cursor(delta);
        GanttOrderState { key: self.key, entries: self.entries, selected, restore: self.restore }
    }

    /// The dialog after moving the selected value, carrying the cursor with
    /// it so that holding the key walks one value along the list.
    fn move_value(self, to: MoveTo) -> (r: GanttOrderState)
        ensures
            r.model() == move_in(self.model(), to),
    {
        proof {
            use_type_invariant(&self);
            lemma_movable_len(self.model().entries);
        }
        let movable = self.movable_count();
        if !(self.selected < self.entries.len() && self.entries[self.selected].movable) || movable < 2 {
            return self;
        }
        let last = movable - 1;
        let target = match to {
            MoveTo::Up => if self.selected > 0 { self.selected - 1 } else { 0 },
            MoveTo::Down => if self.selected + 1 < last { self.selected + 1 } else { last },
            MoveTo::Top => 0,
            MoveTo::Bottom => last,
        };
        let ghost before = self.model();
        let GanttOrderState { key, mut entries, selected, restore } = self;
        let entry = entries.remove(selected);
        entries.insert(target, entry);
        proof {
            assert(entries_view(entries@) == before.entries.remove(selected as int).insert(target as int, before.entries[selected as int]));
        }
        GanttOrderState { key, entries, selected: target, restore }
    }
}

/// Turns counted values into dialog rows; a blank value is not movable.
fn entries_from(values: &Vec<(String, usize)>) -> (r: Vec<OrderEntry>)
    ensures
        entries_view(r@) == entries_of(values_view(values@)),
{
    let mut out: Vec<OrderEntry> = Vec::new();
    let mut i: usize = 0;
    while i < values.len()
        invariant
            i <= values.len(),
            entries_view(out@) == entries_of(values_view(values@)).take(i as int),
        decreases values.len() - i,
    {
        let value = values[i].0.clone();
        let trimmed = trim_chars(&chars_of(values[i].0.as_str()));
        let movable = trimmed.len() > 0;
        let ghost before = out@;
        out.push(OrderEntry { value, task_count: values[i].1, movable });
        assert(entries_view(out@) == entries_view(before).push(entries_of(values_view(values@))[i as int]));
        assert(entries_of(values_view(values@)).take(i as int + 1)
            == entries_of(values_view(values@)).take(i as int).push(entries_of(values_view(values@))[i as int]));
        i += 1;
        assert(entries_view(out@) == entries_of(values_view(values@)).take(i as int));
    }
    assert(entries_of(values_view(values@)).take(i as int) == entries_of(values_view(values@)));
    out
}

/// Whether a list of strings holds one equal to `x`.
fn contains_string(v: &Vec<String>, x: &String) -> (r: bool)
    ensures
        r == strs(v@).contains(x@),
{
    let mut i: usize = 0;
    while i < v.len()
        invariant
            i <= v.len(),
            forall|j: int| 0 <= j < i ==> v@[j]@ != x@,
        decreases v.len() - i,
    {
        if v[i] == *x {
            assert(strs(v@)[i as int] == x@);
            return true;
        }
        i += 1;
    }
    proof {
        if strs(v@).contains(x@) {
            let j = choose|j: int| 0 <= j < strs(v@).len() && strs(v@)[j] == x@;
            assert(v@[j]@ == x@);
        }
    }
    false
}

/// The number of columns shown beside the chart out of `total`.
pub open spec fn columns_shown(columns: int, total: int) -> int {
    let hi = if total < 1 { 1 } else { total };
    if columns < 1 { 1 } else if columns > hi { hi } else { columns }
}

/// How many days of a window sit left of its anchor: a tenth, at least one.
pub open spec fn margin(days: int) -> int {
    if days / 10 < 1 { 1 } else { days / 10 }
}

/// The distance between two numbers.
pub open spec fn abs_diff(a: int, b: int) -> int {
    if a >= b { a - b } else { b - a }
}

/// The first rung at or after `i` nearest to `days`.
pub open spec fn nearest_from(days: int, i: int) -> int
    decreases 8 - i,
{
    if i >= 8 {
        8
    } else {
        let rest = nearest_from(days, i + 1);
        if abs_diff(ladder(i), days) <= abs_diff(ladder(rest), days) { i } else { rest }
    }
}

/// The first rung nearest to `days`.
pub open spec fn nearest_rung(days: int) -> int {
    nearest_from(days, 0)
}

/// The abstract state of the chart.
pub struct GanttModel {
    pub visible: bool,
    pub columns: int,
    pub key: Seq<char>,
    pub order: OrderView,
    /// `None` when fitted; the window's start ordinal and length otherwise.
    pub timeline: Option<(int, int)>,
    pub dialog: Option<DialogModel>,
}

/// Where a timeline view points, as plain values.
pub open spec fn timeline_model(t: TimelineView) -> Option<(int, int)> {
    match t {
        TimelineView::Fit => None,
        TimelineView::Window { start, days } => Some((ordinal(start@), days as int)),
    }
}

/// A fitted span runs forwards.
pub open spec fn fitted_ok(fitted: Option<Timeline>) -> bool {
    match fitted {
        Some(t) => ordinal(t.start@) <= ordinal(t.end@),
        None => true,
    }
}

/// The window a fitted span fills: its first day and its length.
pub open spec fn fitted_window(fitted: Option<Timeline>) -> Option<(int, int)> {
    match fitted {
        Some(t) => Some((ordinal(t.start@), ordinal(t.end@) - ordinal(t.start@) + 1)),
        None => None,
    }
}

/// The window the view starts from: its own when moved, the fitted one
/// otherwise; `None` when neither is known.
pub open spec fn known_window(timeline: Option<(int, int)>, fitted: Option<Timeline>) -> Option<(int, int)> {
    match timeline {
        Some(w) => Some(w),
        None => fitted_window(fitted),
    }
}

/// The length a window falls back to when nothing is dated.
pub open spec fn fallback_days() -> int {
    ladder(2)
}

/// A window moved a quarter of its length, at least a day.
pub open spec fn scrolled(w: (int, int), forward: bool) -> (int, int) {
    let step = if w.1 / 4 < 1 { 1 } else { w.1 / 4 };
    (clamp_ordinal(if forward { w.0 + step } else { w.0 - step }), w.1)
}

/// The rung a zoom lands on.
pub open spec fn zoom_step(days: int, windowed: bool, zoom_in: bool) -> int {
    let n = nearest_rung(days);
    if !windowed && ladder(n) != days {
        n
    } else if zoom_in {
        if n > 0 { n - 1 } else { 0 }
    } else {
        if n < 8 { n + 1 } else { 8 }
    }
}

/// A window zoomed one rung, holding the date at its left margin.
pub open spec fn zoomed(w: (int, int), windowed: bool, zoom_in: bool) -> (int, int) {
    let next = ladder(zoom_step(w.1, windowed, zoom_in));
    (clamp_ordinal(clamp_ordinal(w.0 + margin(w.1)) - margin(next)), next)
}

/// A window of `days` with `date` at its left margin.
pub open spec fn focused(date: int, days: int) -> (int, int) {
    (clamp_ordinal(date - margin(days)), days)
}

/// The chart after opening the colour dialog over counted values.
pub open spec fn open_of(m: GanttModel, values: Seq<(Seq<char>, usize)>) -> GanttModel {
    GanttModel {
        dialog: Some(DialogModel {
            key: m.key,
            entries: entries_of(values),
            selected: 0,
            restore: lookup(m.order, m.key),
        }),
        ..m
    }
}

/// The chart after moving the dialog's selected value: the dialog changes
/// and its dimension's live order is rewritten.
pub open spec fn move_value_of(m: GanttModel, to: MoveTo) -> GanttModel {
    match m.dialog {
        None => m,
        Some(d) => {
            let moved = move_in(d, to);
            GanttModel {
                dialog: Some(moved),
                order: order_set(m.order, d.key, effective_order_of(moved)),
                ..m
            }
        }
    }
}

/// The chart after rebuilding the dialog around another dimension.
pub open spec fn reload_of(m: GanttModel, key: Seq<char>, values: Seq<(Seq<char>, usize)>) -> GanttModel {
    match m.dialog {
        None => m,
        Some(d) => GanttModel {
            dialog: Some(DialogModel {
                key: key,
                entries: entries_of(values),
                selected: 0,
                restore: lookup(m.order, key),
            }),
            ..m
        },
    }
}

/// The chart after cancelling the dialog: the order it opened with is put
/// back, or the dimension's entry removed when it had none.
pub open spec fn cancel_of(m: GanttModel) -> GanttModel {
    match m.dialog {
        None => m,
        Some(d) => GanttModel {
            dialog: None,
            order: match d.restore {
                Some(o) => order_set(m.order, d.key, o),
                None => order_remove(m.order, d.key),
            },
            ..m
        },
    }
}

/// The starting state a configuration describes: fitted, no dialog, and at
/// least one column.
pub open spec fn config_model(config: GanttConfig) -> GanttModel {
    GanttModel {
        visible: config.visible,
        columns: if config.columns < 1 { 1 } else { config.columns as int },
        key: canonical_name(config.color_by@),
        order: order_view(config.order@),
        timeline: None,
        dialog: None,
    }
}

/// The chart's per-session state.
#[derive(Debug)]
pub struct GanttViewState {
    visible: bool,
    columns: usize,
    color_key: GanttColorKey,
    order: Vec<(String, Vec<String>)>,
    timeline: TimelineView,
    dialog: Option<GanttOrderState>,
}

impl GanttViewState {
    /// The chart as plain values.
    pub closed spec fn model(&self) -> GanttModel {
        GanttModel {
            visible: self.visible,
            columns: self.columns as int,
            key: key_name(self.color_key),
            order: order_view(self.order@),
            timeline: timeline_model(self.timeline),
            dialog: match self.dialog {
                Some(d) => Some(d.model()),
                None => None,
            },
        }
    }

    /// The starting state a configuration describes: fitted, no dialog, and
    /// at least one column.
    pub fn from_config(config: &GanttConfig) -> (r: GanttViewState)
        ensures
            r.model() == config_model(*config),
    {
        let mut order: Vec<(String, Vec<String>)> = Vec::new();
        let mut i: usize = 0;
        while i < config.order.len()
            invariant
                i <= config.order.len(),
                order_view(order@) == order_view(config.order@).take(i as int),
            decreases config.order.len() - i,
        {
            let name = config.order[i].0.clone();
            let values = config.order[i].1.clone();
            assert(values@ == config.order@[i as int].1@);
            let ghost before = order@;
            order.push((name, values));
            assert(order_view(order@) == order_view(before).push(order_view(config.order@)[i as int]));
            assert(order_view(config.order@).take(i as int + 1)
                == order_view(config.order@).take(i as int).push(order_view(config.order@)[i as int]));
            i += 1;
        }
        assert(order_view(config.order@).take(i as int) == order_view(config.order@));
        GanttViewState {
            visible: config.visible,
            columns: if config.columns < 1 { 1 } else { config.columns },
            color_key: config.color_key(),
            order,
            timeline: TimelineView::Fit,
            dialog: None,
        }
    }

    /// Whether the chart is drawn.
    pub fn visible(&self) -> (r: bool)
        ensures
            r == self.model().visible,
    {
        self.visible
    }

    /// Draws or hides the chart.
    pub fn set_visible(&mut self, visible: bool)
        ensures
            final(self).model() == (GanttModel { visible, ..old(self).model() }),
    {
        self.visible = visible;
    }

    /// Draws the chart if it is hidden, hides it if it is drawn.
    pub fn toggle_visible(&mut self)
        ensures
            final(self).model() == (GanttModel { visible: !old(self).model().visible, ..old(self).model() }),
    {
        self.visible = !self.visible;
    }

    /// How many table columns stay visible beside the chart: at least the
    /// task title, at most every column the table has.
    pub fn columns(&self, total: usize) -> (r: usize)
        ensures
            r == columns_shown(self.model().columns, total as int),
    {
        let hi = if total < 1 { 1 } else { total };
        if self.columns < 1 { 1 } else if self.columns > hi { hi } else { self.columns }
    }

    /// Shows one more table column, up to every column the table has.
    pub fn add_column(&mut self, total: usize)
        requires
            columns_shown(old(self).model().columns, total as int) < usize::MAX,
        ensures
            final(self).model() == (GanttModel {
                columns: if columns_shown(old(self).model().columns, total as int) + 1 < (if total < 1 { 1 } else { total as int }) {
                    columns_shown(old(self).model().columns, total as int) + 1
                } else {
                    if total < 1 { 1 } else { total as int }
                },
                ..old(self).model()
            }),
    {
        let shown = self.columns(total);
        let hi = if total < 1 { 1 } else { total };
        self.columns = if shown + 1 < hi { shown + 1 } else { hi };
    }

    /// Shows one fewer table column, never dropping the task title.
    pub fn remove_column(&mut self, total: usize)
        ensures
            final(self).model() == (GanttModel {
                columns: if columns_shown(old(self).model().columns, total as int) - 1 < 1 { 1 } else {
                    columns_shown(old(self).model().columns, total as int) - 1
                },
                ..old(self).model()
            }),
    {
        let shown = self.columns(total);
        self.columns = if shown <= 1 { 1 } else { shown - 1 };
    }

    /// Which dimension colours the bars.
    pub fn color_key(&self) -> (r: &GanttColorKey)
        ensures
            key_name(*r) == self.model().key,
    {
        &self.color_key
    }

    /// Colours the bars by a different dimension.
    pub fn set_color_key(&mut self, key: GanttColorKey)
        ensures
            final(self).model() == (GanttModel { key: key_name(key), ..old(self).model() }),
    {
        self.color_key = key;
    }

    /// Where a dimension's values are stored, if anywhere.
    fn position(&self, name: &String) -> (r: Option<usize>)
        ensures
            match r {
                Some(i) => i == key_index(self.model().order, name@) && i < self.order@.len(),
                None => key_index(self.model().order, name@) == -1,
            },
    {
        let ghost ov = self.model().order;
        proof { lemma_key_index(ov, name@); }
        let mut i: usize = 0;
        while i < self.order.len()
            invariant
                i <= self.order.len(),
                ov == order_view(self.order@),
                key_index(ov, name@) == key_index_from(ov, name@, i as int),
            decreases self.order.len() - i,
        {
            if self.order[i].0 == *name {
                return Some(i);
            }
            i += 1;
        }
        None
    }

    /// The colour order for the current dimension, empty when unset.
    pub fn order(&self) -> (r: &[String])
        ensures
            strs(r@) == lookup_or_empty(self.model().order, self.model().key),
    {
        self.order_for(&self.color_key)
    }

    /// The colour order for one dimension, empty when unset.
    pub fn order_for(&self, key: &GanttColorKey) -> (r: &[String])
        ensures
            strs(r@) == lookup_or_empty(self.model().order, key_name(*key)),
    {
        let name = string_from_chars(&key.name());
        match self.position(&name) {
            Some(i) => self.order[i].1.as_slice(),
            None => {
                let empty: &[String] = &[];
                assert(strs(empty@) == Seq::<Seq<char>>::empty());
                empty
            }
        }
    }

    /// Replaces the colour order for one dimension.
    pub fn set_order(&mut self, key: &GanttColorKey, values: Vec<String>)
        ensures
            final(self).model() == (GanttModel {
                order: order_set(old(self).model().order, key_name(*key), strs(values@)),
                ..old(self).model()
            }),
    {
        let name = string_from_chars(&key.name());
        self.store(name, values);
    }

    /// Stores a dimension's values under its name.
    fn store(&mut self, name: String, values: Vec<String>)
        ensures
            final(self).model() == (GanttModel {
                order: order_set(old(self).model().order, name@, strs(values@)),
                ..old(self).model()
            }),
    {
        let ghost before = self.order@;
        match self.position(&name) {
            Some(i) => {
                self.order.set(i, (name, values));
                assert(order_view(self.order@) == order_view(before).update(i as int, (name@, strs(values@))));
            }
            None => {
                self.order.push((name, values));
                assert(order_view(self.order@) == order_view(before).push((name@, strs(values@))));
            }
        }
    }

    /// Forgets a dimension's values.
    fn forget(&mut self, name: &String)
        ensures
            final(self).model() == (GanttModel {
                order: order_remove(old(self).model().order, name@),
                ..old(self).model()
            }),
    {
        let ghost before = self.order@;
        match self.position(name) {
            Some(i) => {
                self.order.remove(i);
                assert(order_view(self.order@) == order_view(before).remove(i as int));
            }
            None => {}
        }
    }

    /// Every dimension's colour order, for persisting.
    pub fn orders(&self) -> (r: &Vec<(String, Vec<String>)>)
        ensures
            order_view(r@) == self.model().order,
    {
        &self.order
    }
}

/// The chart after moving the dialog's cursor.
pub open spec fn cursor_move_of(m: GanttModel, delta: int) -> GanttModel {
    match m.dialog {
        None => m,
        Some(d) => GanttModel { dialog: Some(DialogModel { selected: cursor_of(d, delta), ..d }), ..m },
    }
}

/// The rung nearest to `days`, the first of two equally near.
fn nearest_rung_exec(days: u32) -> (r: usize)
    ensures
        r == nearest_rung(days as int),
        r < LADDER_LEN,
{
    let mut best: usize = 8;
    let mut i: usize = 8;
    while i > 0
        invariant
            i <= 8,
            best <= 8,
            best == nearest_from(days as int, i as int),
        decreases i,
    {
        i -= 1;
        let a = ladder_exec(i);
        let b = ladder_exec(best);
        let da: u32 = if a >= days { a - days } else { days - a };
        let db: u32 = if b >= days { b - days } else { days - b };
        if da <= db {
            best = i;
        }
    }
    best
}

/// How many days of a window sit left of its anchor.
fn margin_days(days: u32) -> (r: i64)
    ensures
        r == margin(days as int),
{
    if days / 10 < 1 { 1 } else { (days / 10) as i64 }
}

impl GanttViewState {
    /// The current window, falling back to what is on screen and then to
    /// today over a middle rung of the ladder when nothing is dated at all.
    fn window_or(&self, fitted: Option<Timeline>) -> (r: (CivilDate, u32))
        requires
            fitted_ok(fitted),
        ensures
            match known_window(self.model().timeline, fitted) {
                Some(w) => ordinal(r.0@) == w.0 && r.1 == w.1,
                None => r.1 == fallback_days(),
            },
    {
        match self.timeline {
            TimelineView::Window { start, days } => (start, days),
            TimelineView::Fit => match fitted {
                Some(t) => (t.start, t.days()),
                None => (today(), ladder_exec(2)),
            },
        }
    }

    /// Where the timeline is pointing.
    pub fn timeline(&self) -> (r: &TimelineView)
        ensures
            timeline_model(*r) == self.model().timeline,
    {
        &self.timeline
    }

    /// Whether the window has been moved off the fitted default.
    pub fn timeline_windowed(&self) -> (r: bool)
        ensures
            r == self.model().timeline is Some,
    {
        match self.timeline {
            TimelineView::Window { .. } => true,
            TimelineView::Fit => false,
        }
    }

    /// Returns to fitting the loaded tasks.
    pub fn fit_timeline(&mut self)
        ensures
            final(self).model() == (GanttModel { timeline: None, ..old(self).model() }),
    {
        self.timeline = TimelineView::Fit;
    }

    /// Moves the window by a quarter of its length, starting from the fitted
    /// window when it has not been moved yet.
    pub fn scroll_timeline(&mut self, fitted: Option<Timeline>, forward: bool)
        requires
            fitted_ok(fitted),
        ensures
            final(self).model() == (GanttModel { timeline: final(self).model().timeline, ..old(self).model() }),
            match known_window(old(self).model().timeline, fitted) {
                Some(w) => final(self).model().timeline == Some(scrolled(w, forward)),
                None => final(self).model().timeline is Some
                    && final(self).model().timeline.unwrap().1 == fallback_days(),
            },
    {
        let (start, days) = self.window_or(fitted);
        let step: i64 = if days / 4 < 1 { 1 } else { (days / 4) as i64 };
        let moved = start.add_days(if forward { step } else { -step });
        self.timeline = TimelineView::Window { start: moved, days };
    }

    /// Steps the zoom ladder, holding the date at the left margin.
    ///
    /// From a fitted window the first step lands on the rung nearest the
    /// span on screen, unless that rung is the span itself.
    pub fn zoom_timeline(&mut self, fitted: Option<Timeline>, in_: bool)
        requires
            fitted_ok(fitted),
        ensures
            final(self).model() == (GanttModel { timeline: final(self).model().timeline, ..old(self).model() }),
            match known_window(old(self).model().timeline, fitted) {
                Some(w) => final(self).model().timeline == Some(zoomed(w, old(self).model().timeline is Some, in_)),
                None => final(self).model().timeline is Some
                    && final(self).model().timeline.unwrap().1 == ladder(zoom_step(fallback_days(), false, in_)),
            },
    {
        let (start, days) = self.window_or(fitted);
        let nearest = nearest_rung_exec(days);
        let windowed = self.timeline_windowed();
        let index: usize = if !windowed && ladder_exec(nearest) != days {
            nearest
        } else if in_ {
            if nearest > 0 { nearest - 1 } else { 0 }
        } else {
            if nearest < 8 { nearest + 1 } else { 8 }
        };
        let next = ladder_exec(index);
        let anchor = start.add_days(margin_days(days));
        self.timeline = TimelineView::Window { start: anchor.add_days(-margin_days(next)), days: next };
    }

    /// Brings a date to the left margin of the window, keeping its length.
    pub fn focus_timeline_on(&mut self, date: CivilDate, fitted: Option<Timeline>)
        requires
            fitted_ok(fitted),
        ensures
            final(self).model() == (GanttModel { timeline: final(self).model().timeline, ..old(self).model() }),
            match known_window(old(self).model().timeline, fitted) {
                Some(w) => final(self).model().timeline == Some(focused(ordinal(date@), w.1)),
                None => final(self).model().timeline == Some(focused(ordinal(date@), fallback_days())),
            },
    {
        let (_, days) = self.window_or(fitted);
        self.timeline = TimelineView::Window { start: date.add_days(-margin_days(days)), days };
    }

    /// The values stored for a dimension, copied.
    fn stored(&self, name: &String) -> (r: Option<Vec<String>>)
        ensures
            restore_view(r) == lookup(self.model().order, name@),
    {
        match self.position(name) {
            Some(i) => {
                let v = self.order[i].1.clone();
                assert(v@ =~= self.order@[i as int].1@);
                Some(v)
            }
            None => None,
        }
    }

    /// Opens the colour dialog over the current dimension's values.
    pub fn open_dialog(&mut self, values: Vec<(String, usize)>)
        ensures
            final(self).model() == open_of(old(self).model(), values_view(values@)),
    {
        let key = self.color_key.duplicate();
        let name = string_from_chars(&key.name());
        let restore = self.stored(&name);
        let entries = entries_from(&values);
        self.dialog = Some(GanttOrderState::opened(key, entries, restore));
    }

    /// Whether the colour dialog is open.
    pub fn dialog_open(&self) -> (r: bool)
        ensures
            r == self.model().dialog is Some,
    {
        self.dialog.is_some()
    }

    /// The colour dialog, for the renderer.
    pub fn dialog(&self) -> (r: Option<&GanttOrderState>)
        ensures
            match r {
                Some(d) => self.model().dialog == Some(d.model()),
                None => self.model().dialog is None,
            },
    {
        self.dialog.as_ref()
    }

    /// Moves the dialog's cursor, held to the list.
    pub fn dialog_move_cursor(&mut self, delta: isize)
        requires
            old(self).model().dialog matches Some(d) ==> d.selected + delta <= isize::MAX,
        ensures
            final(self).model() == cursor_move_of(old(self).model(), delta as int),
    {
        match self.dialog.take() {
            Some(d) => {
                self.dialog = Some(d.with_cursor(delta));
            }
            None => {}
        }
    }

    /// Moves the selected value and rewrites the live order so the chart
    /// behind the dialog repaints.
    pub fn dialog_move_value(&mut self, to: MoveTo)
        ensures
            final(self).model() == move_value_of(old(self).model(), to),
    {
        match self.dialog.take() {
            None => {}
            Some(d) => {
                let moved = d.move_value(to);
                let name = string_from_chars(&moved.key.name());
                let order = moved.effective_order();
                self.dialog = Some(moved);
                self.store(name, order);
            }
        }
    }

    /// Rebuilds the dialog around a different dimension, committing nothing.
    pub fn dialog_reload(&mut self, key: GanttColorKey, values: Vec<(String, usize)>)
        ensures
            final(self).model() == reload_of(old(self).model(), key_name(key), values_view(values@)),
    {
        let name = string_from_chars(&key.name());
        let restore = self.stored(&name);
        match self.dialog.take() {
            Some(_) => {
                let entries = entries_from(&values);
                self.dialog = Some(GanttOrderState::opened(key, entries, restore));
            }
            None => {}
        }
    }

    /// Closes the dialog, keeping the order as edited.
    pub fn dialog_commit(&mut self)
        ensures
            final(self).model() == (GanttModel { dialog: None, ..old(self).model() }),
    {
        self.dialog = None;
    }

    /// Closes the dialog, putting back the order it opened with.
    pub fn dialog_cancel(&mut self)
        ensures
            final(self).model() == cancel_of(old(self).model()),
    {
        match self.dialog.take() {
            None => {}
            Some(d) => {
                let name = string_from_chars(&d.key.name());
                let GanttOrderState { restore, .. } = d;
                match restore {
                    Some(order) => self.store(name, order),
                    None => self.forget(&name),
                }
            }
        }
    }
}

impl Default for GanttViewState {
    /// The state the default configuration describes.
    fn default() -> (r: GanttViewState)
        ensures
            r.model() == (GanttModel {
                visible: false,
                columns: 2,
                key: "assignee"@,
                order: Seq::empty(),
                timeline: None,
                dialog: None,
            }),
    {
        proof { reveal_strlit("assignee"); reveal_strlit("section"); reveal_strlit("state"); }
        let config = GanttConfig::default();
        let r = GanttViewState::from_config(&config);
        assert(order_view(config.order@) == Seq::<(Seq<char>, Seq<Seq<char>>)>::empty());
        r
    }
}

/// The chart after a run of value moves in the dialog.
pub open spec fn moves_of(m: GanttModel, tos: Seq<DialogStep>) -> GanttModel
    decreases tos.len(),
{
    if tos.len() == 0 { m } else { moves_of(dialog_step_of(m, tos[0]), tos.drop_first()) }
}

/// One thing done in the colour dialog short of closing it.
pub enum DialogStep {
    /// The cursor moved by this many entries.
    Cursor(int),
    /// The selected value moved.
    Value(MoveTo),
}

/// The chart after one step in the colour dialog.
pub open spec fn dialog_step_of(m: GanttModel, step: DialogStep) -> GanttModel {
    match step {
        DialogStep::Cursor(delta) => cursor_move_of(m, delta),
        DialogStep::Value(to) => move_value_of(m, to),
    }
}

/// The column count shown never drops the task title and never exceeds the
/// table, whatever was stored and however wide the table is.
pub proof fn lemma_columns_bounded(columns: int, total: int)
    ensures
        1 <= columns_shown(columns, total) <= (if total < 1 { 1 } else { total }),
        1 <= columns <= total ==> columns_shown(columns, total) == columns,
{
}

/// Scrolling back and then forward, or forward and then back, returns the
/// window to where it was, away from the ends of the supported years.
pub proof fn lemma_scroll_round_trip(w: (int, int))
    requires
        w.0 - (if w.1 / 4 < 1 { 1 } else { w.1 / 4 }) >= 0,
        w.0 + (if w.1 / 4 < 1 { 1 } else { w.1 / 4 }) <= max_ordinal(),
    ensures
        scrolled(scrolled(w, false), true) == w,
        scrolled(scrolled(w, true), false) == w,
{
}

/// Each rung of the ladder is its own nearest rung.
proof fn lemma_nearest_on_rung(i: int)
    requires
        0 <= i <= 8,
    ensures
        nearest_rung(ladder(i)) == i,
{
    reveal_with_fuel(nearest_from, 10);
    if i == 0 {
        assert(nearest_rung(7) == 0);
    } else if i == 1 {
        assert(nearest_rung(14) == 1);
    } else if i == 2 {
        assert(nearest_rung(30) == 2);
    } else if i == 3 {
        assert(nearest_rung(60) == 3);
    } else if i == 4 {
        assert(nearest_rung(90) == 4);
    } else if i == 5 {
        assert(nearest_rung(180) == 5);
    } else if i == 6 {
        assert(nearest_rung(365) == 6);
    } else if i == 7 {
        assert(nearest_rung(730) == 7);
    } else {
        assert(nearest_rung(1825) == 8);
    }
}

/// Zooming in one rung and back out returns to the same window, and so
/// does zooming out and back in, away from the ends of the ladder and of
/// the supported years.
pub proof fn lemma_zoom_round_trip(start: int, i: int)
    requires
        0 <= start,
        start + margin(ladder(i)) <= max_ordinal(),
    ensures
        1 <= i <= 8 ==> zoomed(zoomed((start, ladder(i)), true, true), true, false) == (start, ladder(i)),
        0 <= i <= 7 && start + margin(ladder(i)) - margin(ladder(i + 1)) >= 0
            ==> zoomed(zoomed((start, ladder(i)), true, false), true, true) == (start, ladder(i)),
{
    if 1 <= i <= 8 {
        lemma_nearest_on_rung(i);
        lemma_nearest_on_rung(i - 1);
    }
    if 0 <= i <= 7 {
        lemma_nearest_on_rung(i);
        lemma_nearest_on_rung(i + 1);
    }
}

/// Zooming keeps the date at the left margin where it was, as long as the
/// new window fits in the supported years.
pub proof fn lemma_zoom_holds_anchor(w: (int, int), windowed: bool, zoom_in: bool)
    requires
        0 <= w.0,
        w.0 + margin(w.1) <= max_ordinal(),
        w.0 + margin(w.1) - margin(ladder(zoom_step(w.1, windowed, zoom_in))) >= 0,
    ensures
        zoomed(w, windowed, zoom_in).0 + margin(zoomed(w, windowed, zoom_in).1) == w.0 + margin(w.1),
{
}

/// A move carries the cursor with the value it moved, and a value that is
/// not movable stays where it is.
pub proof fn lemma_move_carries_cursor(d: DialogModel, to: MoveTo)
    requires
        dialog_wf(d),
    ensures
        dialog_wf(move_in(d, to)),
        d.entries.len() > 0 ==> move_in(d, to).entries[move_in(d, to).selected] == d.entries[d.selected],
        d.entries.len() > 0 && !d.entries[d.selected].2 ==> move_in(d, to) == d,
        move_in(d, to).entries.len() == d.entries.len(),
{
    lemma_movable_len(d.entries);
}

/// Every move rewrites the live order of the dialog's dimension to what is
/// on screen, and leaves every other dimension's order alone.
pub proof fn lemma_move_rewrites_live_order(m: GanttModel, to: MoveTo, other: Seq<char>)
    requires
        m.dialog is Some,
    ensures
        lookup(move_value_of(m, to).order, m.dialog.unwrap().key)
            == Some(effective_order_of(move_in(m.dialog.unwrap(), to))),
        other != m.dialog.unwrap().key ==> lookup(move_value_of(m, to).order, other) == lookup(m.order, other),
{
    let d = m.dialog.unwrap();
    lemma_lookup_after_set(m.order, d.key, effective_order_of(move_in(d, to)), d.key);
    lemma_lookup_after_set(m.order, d.key, effective_order_of(move_in(d, to)), other);
}

/// A value configured before the dialog opened survives in the order it
/// writes, on screen or not.
pub proof fn lemma_configured_values_survive(d: DialogModel, v: Seq<char>)
    requires
        d.restore matches Some(prev) && prev.contains(v),
    ensures
        effective_order_of(d).contains(v),
{
    let shown = movable_values(d.entries);
    let prev = d.restore.unwrap();
    let f = |x: Seq<char>| !shown.contains(x);
    if shown.contains(v) {
        let i = choose|i: int| 0 <= i < shown.len() && shown[i] == v;
        assert((shown + prev.filter(f))[i] == v);
    } else {
        let i = choose|i: int| 0 <= i < prev.len() && prev[i] == v;
        prev.lemma_filter_contains(f, i);
        let j = choose|j: int| 0 <= j < prev.filter(f).len() && prev.filter(f)[j] == v;
        assert((shown + prev.filter(f))[shown.len() + j] == v);
    }
}

/// Only the entry at the first position of a name carries that name.
pub open spec fn unique_key(order: OrderView, key: Seq<char>) -> bool {
    forall|j: int| 0 <= j < order.len() && order[j].0 == key ==> j == key_index(order, key)
}

proof fn lemma_unique_after_set(order: OrderView, key: Seq<char>, values: Seq<Seq<char>>, watched: Seq<char>)
    requires
        unique_key(order, watched),
    ensures
        unique_key(order_set(order, key, values), watched),
{
    lemma_key_index(order, key);
    lemma_key_index(order, watched);
    let s = order_set(order, key, values);
    lemma_key_index(s, watched);
    assert forall|j: int| 0 <= j < s.len() && s[j].0 == watched implies j == key_index(s, watched) by {
        let w = key_index(s, watched);
        if j < order.len() && order[j].0 == watched {
            assert(j == key_index(order, watched));
            if w < j {
                if w < order.len() && order[w].0 == watched {
                    assert(w == key_index(order, watched));
                } else if w < order.len() {
                    assert(s[w].0 == key);
                    assert(key == watched);
                    assert(order[key_index(order, key)].0 == key);
                }
            }
        } else if j < order.len() {
            assert(s[j].0 == key);
            assert(watched == key);
        } else {
            assert(watched == key);
            assert(key_index(order, key) == -1);
        }
    }
}

/// Cancelling the colour dialog after any run of cursor and value moves
/// closes it and puts every dimension's order back to what it was before
/// the dialog opened; a dimension that had none is left with none.
pub proof fn lemma_cancel_restores_orders(m: GanttModel, values: Seq<(Seq<char>, usize)>, tos: Seq<DialogStep>, k: Seq<char>)
    ensures
        lookup(cancel_of(moves_of(open_of(m, values), tos)).order, k) == lookup(m.order, k),
        cancel_of(moves_of(open_of(m, values), tos)).dialog is None,
{
    let opened = open_of(m, values);
    let key = m.key;
    lemma_key_index(m.order, key);
    lemma_moves_keep(opened, m, key, tos, k);
    let after = moves_of(opened, tos);
    let d = after.dialog.unwrap();
    match d.restore {
        Some(o) => {
            lemma_lookup_after_set(after.order, key, o, k);
        }
        None => {
            lemma_lookup_after_remove(after.order, key, k);
            if k == key {
                let r = order_remove(after.order, key);
                lemma_key_index(after.order, key);
                lemma_key_index(r, key);
                let i = key_index(after.order, key);
                if i >= 0 {
                    let ri = key_index(r, key);
                    if ri >= 0 {
                        if ri < i {
                            assert(after.order[ri].0 == key);
                        } else {
                            assert(after.order[ri + 1].0 == key);
                        }
                    }
                }
            }
        }
    }
}

/// What a run of moves keeps while the dialog is open: its dimension and
/// restore order, and every other dimension's order.
proof fn lemma_moves_keep(cur: GanttModel, m: GanttModel, key: Seq<char>, tos: Seq<DialogStep>, k: Seq<char>)
    requires
        cur.dialog is Some,
        cur.dialog.unwrap().key == key,
        cur.dialog.unwrap().restore == lookup(m.order, key),
        forall|x: Seq<char>| x != key ==> lookup(cur.order, x) == lookup(m.order, x),
        lookup(m.order, key) is None ==> unique_key(cur.order, key),
    ensures
        moves_of(cur, tos).dialog is Some,
        moves_of(cur, tos).dialog.unwrap().key == key,
        moves_of(cur, tos).dialog.unwrap().restore == lookup(m.order, key),
        k != key ==> lookup(moves_of(cur, tos).order, k) == lookup(m.order, k),
        lookup(m.order, key) is None ==> unique_key(moves_of(cur, tos).order, key),
    decreases tos.len(),
{
    if tos.len() > 0 {
        let next = dialog_step_of(cur, tos[0]);
        let d = cur.dialog.unwrap();
        match tos[0] {
            DialogStep::Cursor(_) => {}
            DialogStep::Value(to) => {
                assert forall|x: Seq<char>| x != key implies lookup(next.order, x) == lookup(m.order, x) by {
                    lemma_lookup_after_set(cur.order, key, effective_order_of(move_in(d, to)), x);
                }
                if lookup(m.order, key) is None {
                    lemma_unique_after_set(cur.order, key, effective_order_of(move_in(d, to)), key);
                }
            }
        }
        lemma_moves_keep(next, m, key, tos.drop_first(), k);
    }
}

} // verus!
