//! The task table's cursor and selection: where the cursor lands after the
//! table is rebuilt, which projects a record names first, what the pane
//! reports once it settles, and the bulk edits of the set of chosen tasks.
//!
//! The table itself is laid out elsewhere; what these read of it is, for each
//! row, the task it stands for, whether it is a task row and whether the
//! cursor may rest on it.

use vstd::prelude::*;
use crate::filter::texts;
use crate::records::{RecordView, TaskRecord};
use crate::text::push_str;

verus! {

/// What the cursor and the selection read of one row of the table.
#[derive(Debug)]
pub struct TableRow {
    /// The task the row stands for; empty on a heading.
    pub gid: String,
    /// Whether the row is a task rather than a heading.
    pub is_task: bool,
    /// Whether the cursor may rest on the row.
    pub selectable: bool,
}

/// A row as plain values.
pub struct RowView {
    pub gid: Seq<char>,
    pub is_task: bool,
    pub selectable: bool,
}

impl View for TableRow {
    type V = RowView;

    open spec fn view(&self) -> RowView {
        RowView { gid: self.gid@, is_task: self.is_task, selectable: self.selectable }
    }
}

/// The rows as plain values.
pub open spec fn rows_view(rows: Seq<TableRow>) -> Seq<RowView> {
    rows.map_values(|r: TableRow| r@)
}

/// The first row that stands for task `g`, if any.
pub open spec fn gid_position(rows: Seq<RowView>, g: Seq<char>) -> Option<int>
    decreases rows.len(),
{
    if rows.len() == 0 {
        None
    } else {
        match gid_position(rows.drop_last(), g) {
            Some(i) => Some(i),
            None => if rows.last().gid == g { Some(rows.len() - 1) } else { None },
        }
    }
}

/// The first row the cursor may rest on, if any.
pub open spec fn first_selectable(rows: Seq<RowView>) -> Option<int>
    decreases rows.len(),
{
    if rows.len() == 0 {
        None
    } else {
        match first_selectable(rows.drop_last()) {
            Some(i) => Some(i),
            None => if rows.last().selectable { Some(rows.len() - 1) } else { None },
        }
    }
}

/// The last row at or above `bound` that the cursor may rest on, if any.
pub open spec fn last_selectable_within(rows: Seq<RowView>, bound: int) -> Option<int>
    decreases rows.len(),
{
    if rows.len() == 0 {
        None
    } else if rows.len() - 1 <= bound && rows.last().selectable {
        Some(rows.len() - 1)
    } else {
        last_selectable_within(rows.drop_last(), bound)
    }
}

/// The last row the cursor may rest on, if any.
pub open spec fn last_selectable(rows: Seq<RowView>) -> Option<int> {
    last_selectable_within(rows, rows.len() as int)
}

/// Where the cursor goes in a rebuilt table: back on its task; else on that
/// task's parent; else on the nearest row at or above where it stood (the
/// last row when none is); else on the first row it may rest on.
pub open spec fn restored_cursor(
    rows: Seq<RowView>,
    gid: Option<Seq<char>>,
    parent_gid: Option<Seq<char>>,
    previous: Option<int>,
) -> Option<int> {
    let by_task = match gid {
        Some(g) => gid_position(rows, g),
        None => None,
    };
    let by_parent = match parent_gid {
        Some(g) => gid_position(rows, g),
        None => None,
    };
    let by_place = match previous {
        Some(p) => match last_selectable_within(rows, p) {
            Some(i) => Some(i),
            None => last_selectable(rows),
        },
        None => None,
    };
    if by_task is Some {
        by_task
    } else if by_parent is Some {
        by_parent
    } else if by_place is Some {
        by_place
    } else {
        first_selectable(rows)
    }
}

proof fn lemma_prefix_step(rows: Seq<RowView>, i: int)
    requires
        0 <= i < rows.len(),
    ensures
        rows.take(i + 1).drop_last() == rows.take(i),
        rows.take(i + 1).last() == rows[i],
        rows.take(i + 1).len() == i + 1,
{
    assert(rows.take(i + 1).drop_last() =~= rows.take(i));
}

/// Where the cursor goes once the table has been rebuilt as `rows`: `gid` is
/// the task it stood on, `parent_gid` that task's parent and `previous` the
/// row it stood on before.
pub fn restore_cursor(
    rows: &[TableRow],
    gid: Option<&String>,
    parent_gid: Option<&String>,
    previous: Option<usize>,
) -> (r: Option<usize>)
    ensures
        r matches Some(i) ==> i < rows@.len(),
        (match r { Some(i) => Some(i as int), None => None }) == restored_cursor(
            rows_view(rows@),
            match gid { Some(g) => Some(g@), None => None },
            match parent_gid { Some(g) => Some(g@), None => None },
            match previous { Some(p) => Some(p as int), None => None },
        ),
{
    let ghost rv = rows_view(rows@);
    let ghost bound: int = match previous { Some(p) => p as int, None => -1 };
    let ghost total: int = rows@.len() as int;
    let mut by_task: Option<usize> = None;
    let mut by_parent: Option<usize> = None;
    let mut by_place: Option<usize> = None;
    let mut last: Option<usize> = None;
    let mut first: Option<usize> = None;
    let mut i: usize = 0;
    while i < rows.len()
        invariant
            i <= rows@.len(),
            rv == rows_view(rows@),
            total == rows@.len(),
            bound == match previous { Some(p) => p as int, None => -1 },
            (match by_task { Some(k) => Some(k as int), None => None })
                == (match gid { Some(g) => gid_position(rv.take(i as int), g@), None => None }),
            (match by_parent { Some(k) => Some(k as int), None => None })
                == (match parent_gid { Some(g) => gid_position(rv.take(i as int), g@), None => None }),
            (match by_place { Some(k) => Some(k as int), None => None })
                == last_selectable_within(rv.take(i as int), bound),
            (match last { Some(k) => Some(k as int), None => None })
                == last_selectable_within(rv.take(i as int), total),
            (match first { Some(k) => Some(k as int), None => None })
                == first_selectable(rv.take(i as int)),
            by_task matches Some(k) ==> k < i,
            by_parent matches Some(k) ==> k < i,
            by_place matches Some(k) ==> k < i,
            previous is None ==> by_place is None,
            last matches Some(k) ==> k < i,
            first matches Some(k) ==> k < i,
        decreases rows.len() - i,
    {
        proof { lemma_prefix_step(rv, i as int); }
        let row = &rows[i];
        assert(rv[i as int] == row@);
        if by_task.is_none() {
            if let Some(g) = gid {
                if row.gid == *g {
                    by_task = Some(i);
                }
            }
        }
        if by_parent.is_none() {
            if let Some(g) = parent_gid {
                if row.gid == *g {
                    by_parent = Some(i);
                }
            }
        }
        if row.selectable {
            if let Some(p) = previous {
                if i <= p {
                    by_place = Some(i);
                }
            }
            last = Some(i);
            if first.is_none() {
                first = Some(i);
            }
        }
        i += 1;
    }
    proof {
        assert(rv.take(i as int) =~= rv);
        assert(last_selectable(rv) == last_selectable_within(rv, total));
    }
    if by_task.is_some() {
        by_task
    } else if by_parent.is_some() {
        by_parent
    } else if by_place.is_some() {
        by_place
    } else if previous.is_some() && last.is_some() {
        last
    } else {
        first
    }
}

/// The first project in `ps` that `chosen` names, if any.
pub open spec fn first_chosen(ps: Seq<Seq<char>>, chosen: Seq<Seq<char>>) -> Option<int>
    decreases ps.len(),
{
    if ps.len() == 0 {
        None
    } else {
        match first_chosen(ps.drop_last(), chosen) {
            Some(k) => Some(k),
            None => if chosen.contains(ps.last()) { Some(ps.len() - 1) } else { None },
        }
    }
}

/// A record's projects with the first chosen one moved to the front and the
/// others kept in their order.
pub open spec fn led_by_chosen(ps: Seq<Seq<char>>, chosen: Seq<Seq<char>>) -> Seq<Seq<char>> {
    match first_chosen(ps, chosen) {
        Some(k) => seq![ps[k]] + ps.take(k) + ps.skip(k + 1),
        None => ps,
    }
}

/// Whether `v` holds a text equal to `x`.
fn holds_text(v: &[String], x: &String) -> (r: bool)
    ensures
        r == texts(v@).contains(x@),
{
    let mut i: usize = 0;
    while i < v.len()
        invariant
            i <= v.len(),
            forall|j: int| 0 <= j < i ==> v@[j]@ != x@,
        decreases v.len() - i,
    {
        if v[i] == *x {
            assert(texts(v@)[i as int] == x@);
            return true;
        }
        i += 1;
    }
    proof {
        if texts(v@).contains(x@) {
            let j = choose|j: int| 0 <= j < texts(v@).len() && texts(v@)[j] == x@;
            assert(v@[j]@ == x@);
        }
    }
    false
}

/// Moves the first of `projects` that `chosen` names to the front, keeping
/// the rest in order; leaves the list alone when it names none of them.
pub fn lead_with_chosen(projects: &mut Vec<String>, chosen: &[String])
    ensures
        texts(final(projects)@) == led_by_chosen(texts(old(projects)@), texts(chosen@)),
{
    let ghost ps = texts(projects@);
    let mut found: Option<usize> = None;
    let mut i: usize = 0;
    while i < projects.len()
        invariant
            i <= projects@.len(),
            ps == texts(projects@),
            (match found { Some(k) => Some(k as int), None => None }) == first_chosen(ps.take(i as int), texts(chosen@)),
            found matches Some(k) ==> k < i,
        decreases projects.len() - i,
    {
        assert(ps.take(i as int + 1).drop_last() =~= ps.take(i as int));
        if found.is_none() && holds_text(chosen, &projects[i]) {
            found = Some(i);
        }
        i += 1;
    }
    assert(ps.take(i as int) =~= ps);
    match found {
        None => {},
        Some(k) => {
            let mut out: Vec<String> = Vec::new();
            out.push(projects[k].clone());
            let mut j: usize = 0;
            while j < projects.len()
                invariant
                    k < projects@.len(),
                    j <= projects@.len(),
                    ps == texts(projects@),
                    texts(out@) == seq![ps[k as int]] + (if j <= k { ps.take(j as int) } else { ps.take(k as int) + ps.subrange(k as int + 1, j as int) }),
                decreases projects.len() - j,
            {
                let ghost before = texts(out@);
                if j != k {
                    let c = projects[j].clone();
                    assert(c@ == ps[j as int]);
                    out.push(c);
                    assert(texts(out@) =~= before.push(ps[j as int]));
                }
                proof {
                    let head = seq![ps[k as int]];
                    if j < k {
                        assert(ps.take(j as int + 1) =~= ps.take(j as int).push(ps[j as int]));
                        assert(head + ps.take(j as int + 1) =~= (head + ps.take(j as int)).push(ps[j as int]));
                    } else if j > k {
                        let mid = ps.subrange(k as int + 1, j as int);
                        assert(ps.subrange(k as int + 1, j as int + 1) =~= mid.push(ps[j as int]));
                        assert(head + (ps.take(k as int) + mid.push(ps[j as int]))
                            =~= (head + (ps.take(k as int) + mid)).push(ps[j as int]));
                    } else {
                        assert(ps.subrange(k as int + 1, k as int + 1) =~= Seq::<Seq<char>>::empty());
                        assert(ps.take(k as int) + Seq::<Seq<char>>::empty() =~= ps.take(k as int));
                    }
                }
                j += 1;
            }
            assert(ps.subrange(k as int + 1, j as int) =~= ps.skip(k as int + 1));
            *projects = out;
        },
    }
}

/// A record with its projects led by the first chosen one.
pub open spec fn record_led(r: RecordView, chosen: Seq<Seq<char>>) -> RecordView {
    RecordView { projects: led_by_chosen(r.projects, chosen), ..r }
}

/// Puts, in each record, the first project among `selected` at the front of
/// its projects, so that the table shows it first; the other projects keep
/// their order and every other field is left alone.
pub fn prefer_selected_projects(records: &mut Vec<TaskRecord>, selected: &[String])
    ensures
        final(records)@.len() == old(records)@.len(),
        forall|i: int| 0 <= i < old(records)@.len()
            ==> #[trigger] final(records)@[i]@ == record_led(old(records)@[i]@, texts(selected@)),
{
    let ghost before = records@;
    let mut i: usize = 0;
    while i < records.len()
        invariant
            i <= records@.len(),
            records@.len() == before.len(),
            forall|j: int| 0 <= j < i ==> #[trigger] records@[j]@ == record_led(before[j]@, texts(selected@)),
            forall|j: int| i <= j < before.len() ==> #[trigger] records@[j] == before[j],
        decreases records.len() - i,
    {
        lead_with_chosen(&mut records[i].projects, selected);
        i += 1;
    }
}

/// What pushing onto a list of texts does to what it holds.
proof fn lemma_push_texts(s: Seq<Seq<char>>, x: Seq<char>)
    ensures
        forall|y: Seq<char>| #[trigger] s.push(x).contains(y) <==> (s.contains(y) || y == x),
        s.no_duplicates() && !s.contains(x) ==> s.push(x).no_duplicates(),
{
    let t = s.push(x);
    assert forall|y: Seq<char>| #[trigger] t.contains(y) <==> (s.contains(y) || y == x) by {
        if t.contains(y) {
            let k = choose|k: int| 0 <= k < t.len() && t[k] == y;
            if k < s.len() {
                assert(s[k] == y);
            }
        }
        if s.contains(y) {
            let k = choose|k: int| 0 <= k < s.len() && s[k] == y;
            assert(t[k] == y);
        }
        if y == x {
            assert(t[s.len() as int] == y);
        }
    };
    if s.no_duplicates() && !s.contains(x) {
        assert forall|i: int, j: int| 0 <= i < t.len() && 0 <= j < t.len() && i != j implies t[i] != t[j] by {
            if i < s.len() && j < s.len() {
            } else if i < s.len() {
                assert(s.contains(s[i]));
            } else if j < s.len() {
                assert(s.contains(s[j]));
            }
        };
    }
}

/// The tasks the rows show: the ids of the task rows that name one.
pub open spec fn shown_tasks(rows: Seq<RowView>) -> Set<Seq<char>> {
    Set::new(|g: Seq<char>| exists|i: int| 0 <= i < rows.len() && #[trigger] rows[i].is_task
        && rows[i].gid.len() > 0 && rows[i].gid == g)
}

/// Whether row `i` shows a task.
pub open spec fn shows_task(r: RowView) -> bool {
    r.is_task && r.gid.len() > 0
}

/// What one more row adds to the tasks shown.
proof fn lemma_shown_step(rv: Seq<RowView>, k: int)
    requires
        0 <= k < rv.len(),
    ensures
        shown_tasks(rv.take(k + 1)) == if shows_task(rv[k]) {
            shown_tasks(rv.take(k)).insert(rv[k].gid)
        } else {
            shown_tasks(rv.take(k))
        },
{
    let a = rv.take(k + 1);
    let b = rv.take(k);
    assert forall|g: Seq<char>| #[trigger] shown_tasks(a).contains(g) == (shown_tasks(b).contains(g)
        || (shows_task(rv[k]) && rv[k].gid == g)) by {
        if shown_tasks(a).contains(g) {
            let j = choose|j: int| 0 <= j < a.len() && #[trigger] a[j].is_task && a[j].gid.len() > 0 && a[j].gid == g;
            if j < k {
                assert(b[j] == a[j]);
            }
        }
        if shown_tasks(b).contains(g) {
            let j = choose|j: int| 0 <= j < b.len() && #[trigger] b[j].is_task && b[j].gid.len() > 0 && b[j].gid == g;
            assert(a[j] == b[j]);
        }
        if shows_task(rv[k]) && rv[k].gid == g {
            assert(a[k] == rv[k]);
        }
    };
    if shows_task(rv[k]) {
        assert(shown_tasks(a) =~= shown_tasks(b).insert(rv[k].gid));
    } else {
        assert(shown_tasks(a) =~= shown_tasks(b));
    }
}

/// Whether task `gid` is among those the rows show.
pub fn is_shown(rows: &[TableRow], gid: &String) -> (r: bool)
    ensures
        r == shown_tasks(rows_view(rows@)).contains(gid@),
{
    let ghost rv = rows_view(rows@);
    let mut i: usize = 0;
    while i < rows.len()
        invariant
            i <= rows@.len(),
            rv == rows_view(rows@),
            !shown_tasks(rv.take(i as int)).contains(gid@),
        decreases rows.len() - i,
    {
        proof { lemma_shown_step(rv, i as int); }
        assert(rv[i as int] == rows@[i as int]@);
        if rows[i].is_task && !rows[i].gid.as_str().is_empty() && rows[i].gid == *gid {
            assert(rv.take(i as int + 1)[i as int] == rv[i as int]);
            return true;
        }
        i += 1;
    }
    assert(rv.take(i as int) =~= rv);
    false
}

/// The tasks chosen for a bulk action, each once.
#[derive(Debug)]
pub struct TaskSelection {
    ids: Vec<String>,
}

impl View for TaskSelection {
    type V = Set<Seq<char>>;

    closed spec fn view(&self) -> Set<Seq<char>> {
        Set::new(|g: Seq<char>| texts(self.ids@).contains(g))
    }
}

impl TaskSelection {
    /// No task is held twice.
    pub closed spec fn wf(&self) -> bool {
        texts(self.ids@).no_duplicates()
    }

    /// Nothing chosen.
    pub fn new() -> (r: TaskSelection)
        ensures
            r.wf(),
            r@ == Set::<Seq<char>>::empty(),
    {
        let r = TaskSelection { ids: Vec::new() };
        assert(r@ =~= Set::<Seq<char>>::empty());
        r
    }

    /// Whether task `gid` is chosen.
    pub fn contains(&self, gid: &String) -> (r: bool)
        ensures
            r == self@.contains(gid@),
    {
        holds_text(self.ids.as_slice(), gid)
    }

    /// Whether `gid` names a task and that task is chosen.
    pub fn is_chosen(&self, gid: &String) -> (r: bool)
        ensures
            r == (gid@.len() > 0 && self@.contains(gid@)),
    {
        !gid.as_str().is_empty() && self.contains(gid)
    }

    /// How many tasks are chosen.
    pub fn len(&self) -> (r: usize)
        requires
            self.wf(),
        ensures
            r == self@.len(),
    {
        proof { self.lemma_len(); }
        self.ids.len()
    }

    proof fn lemma_len(&self)
        requires
            self.wf(),
        ensures
            self@.finite(),
            self@.len() == self.ids@.len(),
    {
        let t = texts(self.ids@);
        t.unique_seq_to_set();
        assert(self@ =~= t.to_set());
    }

    /// Adds `gid` unless it is held already.
    fn insert(&mut self, gid: &String)
        requires
            old(self).wf(),
        ensures
            final(self).wf(),
            final(self)@ == old(self)@.insert(gid@),
    {
        if !holds_text(self.ids.as_slice(), gid) {
            let ghost before = texts(self.ids@);
            self.ids.push(gid.clone());
            assert(texts(self.ids@) =~= before.push(gid@));
            proof { lemma_push_texts(before, gid@); }
        }
        assert(self@ =~= old(self)@.insert(gid@));
    }

    /// Drops every choice.
    pub fn clear(&mut self)
        ensures
            final(self).wf(),
            final(self)@ == Set::<Seq<char>>::empty(),
    {
        self.ids = Vec::new();
        assert(self@ =~= Set::<Seq<char>>::empty());
    }

    /// Chooses task `gid` when it is not chosen, and unchooses it when it is.
    pub fn toggle(&mut self, gid: &String)
        requires
            old(self).wf(),
        ensures
            final(self).wf(),
            final(self)@ == if old(self)@.contains(gid@) { old(self)@.remove(gid@) } else { old(self)@.insert(gid@) },
    {
        let ghost t = texts(self.ids@);
        let mut kept: Vec<String> = Vec::new();
        let mut found = false;
        let mut i: usize = 0;
        while i < self.ids.len()
            invariant
                i <= self.ids@.len(),
                t == texts(self.ids@),
                t.no_duplicates(),
                texts(kept@).no_duplicates(),
                forall|x: Seq<char>| #[trigger] texts(kept@).contains(x)
                    <==> (t.take(i as int).contains(x) && x != gid@),
                found == t.take(i as int).contains(gid@),
            decreases self.ids.len() - i,
        {
            let ghost prefix = t.take(i as int);
            assert(t.take(i as int + 1) =~= prefix.push(t[i as int]));
            assert(!prefix.contains(t[i as int])) by {
                if prefix.contains(t[i as int]) {
                    let k = choose|k: int| 0 <= k < prefix.len() && prefix[k] == t[i as int];
                    assert(t[k] == t[i as int]);
                }
            };
            proof {
                lemma_push_texts(prefix, t[i as int]);
                lemma_push_texts(texts(kept@), t[i as int]);
            }
            if self.ids[i] == *gid {
                found = true;
            } else {
                let c = self.ids[i].clone();
                let ghost before = texts(kept@);
                kept.push(c);
                assert(texts(kept@) =~= before.push(t[i as int]));
            }
            i += 1;
        }
        assert(t.take(i as int) =~= t);
        if found {
            self.ids = kept;
            assert(self@ =~= old(self)@.remove(gid@));
        } else {
            self.insert(gid);
        }
    }

    /// Adds every task the rows show.
    pub fn select_all_shown(&mut self, rows: &[TableRow])
        requires
            old(self).wf(),
        ensures
            final(self).wf(),
            final(self)@ == old(self)@.union(shown_tasks(rows_view(rows@))),
    {
        let ghost start = self@;
        let ghost rv = rows_view(rows@);
        let mut i: usize = 0;
        while i < rows.len()
            invariant
                i <= rows@.len(),
                rv == rows_view(rows@),
                self.wf(),
                self@ == start.union(shown_tasks(rv.take(i as int))),
            decreases rows.len() - i,
        {
            assert(rv[i as int] == rows@[i as int]@);
            if rows[i].is_task && !rows[i].gid.as_str().is_empty() {
                self.insert(&rows[i].gid);
            }
            i += 1;
            proof { lemma_shown_step(rv, i - 1); }
            assert(self@ =~= start.union(shown_tasks(rv.take(i as int))));
        }
        assert(rv.take(i as int) =~= rv);
    }

    /// Chooses exactly the shown tasks that were not chosen.
    pub fn invert_shown(&mut self, rows: &[TableRow])
        requires
            old(self).wf(),
        ensures
            final(self).wf(),
            final(self)@ == shown_tasks(rows_view(rows@)).difference(old(self)@),
    {
        let ghost rv = rows_view(rows@);
        let mut next = TaskSelection::new();
        let mut i: usize = 0;
        while i < rows.len()
            invariant
                i <= rows@.len(),
                rv == rows_view(rows@),
                next.wf(),
                next@ == shown_tasks(rv.take(i as int)).difference(self@),
            decreases rows.len() - i,
        {
            proof { lemma_shown_step(rv, i as int); }
            assert(rv[i as int] == rows@[i as int]@);
            if rows[i].is_task && !rows[i].gid.as_str().is_empty() && !self.contains(&rows[i].gid) {
                next.insert(&rows[i].gid);
            }
            i += 1;
            assert(next@ =~= shown_tasks(rv.take(i as int)).difference(self@));
        }
        assert(rv.take(i as int) =~= rv);
        *self = next;
    }

    /// Unchooses every task the rows do not show.
    pub fn retain_shown(&mut self, rows: &[TableRow])
        requires
            old(self).wf(),
        ensures
            final(self).wf(),
            final(self)@ == old(self)@.intersect(shown_tasks(rows_view(rows@))),
    {
        let ghost t = texts(self.ids@);
        let ghost shown = shown_tasks(rows_view(rows@));
        let mut kept: Vec<String> = Vec::new();
        let mut i: usize = 0;
        while i < self.ids.len()
            invariant
                i <= self.ids@.len(),
                t == texts(self.ids@),
                t.no_duplicates(),
                shown == shown_tasks(rows_view(rows@)),
                texts(kept@).no_duplicates(),
                forall|x: Seq<char>| #[trigger] texts(kept@).contains(x)
                    <==> (t.take(i as int).contains(x) && shown.contains(x)),
            decreases self.ids.len() - i,
        {
            let ghost prefix = t.take(i as int);
            assert(t.take(i as int + 1) =~= prefix.push(t[i as int]));
            assert(!prefix.contains(t[i as int])) by {
                if prefix.contains(t[i as int]) {
                    let k = choose|k: int| 0 <= k < prefix.len() && prefix[k] == t[i as int];
                    assert(t[k] == t[i as int]);
                }
            };
            proof {
                lemma_push_texts(prefix, t[i as int]);
                lemma_push_texts(texts(kept@), t[i as int]);
            }
            if is_shown(rows, &self.ids[i]) {
                let c = self.ids[i].clone();
                let ghost before = texts(kept@);
                kept.push(c);
                assert(texts(kept@) =~= before.push(t[i as int]));
            }
            i += 1;
        }
        assert(t.take(i as int) =~= t);
        self.ids = kept;
        assert(self@ =~= old(self)@.intersect(shown));
    }
}

/// The last column, or 0 when there is none.
pub open spec fn last_column(count: int) -> int {
    if count == 0 { 0 } else { count - 1 }
}

/// The column the cursor stands in: where it was put, held to the columns
/// that exist.
pub open spec fn shown_column(column: int, count: int) -> int {
    if column <= last_column(count) { column } else { last_column(count) }
}

/// The column the cursor lands in after `delta` steps sideways, held to the
/// columns that exist.
pub open spec fn moved_column(column: int, delta: int, count: int) -> int {
    let to = shown_column(column, count) + delta;
    if to < 0 { 0 } else if to > last_column(count) { last_column(count) } else { to }
}

/// The column the cursor stands in, held to the `count` columns there are.
pub fn column_in_range(column: usize, count: usize) -> (r: usize)
    ensures
        r == shown_column(column as int, count as int),
{
    let last = if count == 0 { 0 } else { count - 1 };
    if column <= last { column } else { last }
}

/// Walks the column cursor `delta` steps, held to the `count` columns there
/// are.
pub fn move_column(column: usize, delta: i64, count: usize) -> (r: usize)
    requires
        count <= i64::MAX,
        i64::MIN <= shown_column(column as int, count as int) + delta <= i64::MAX,
    ensures
        r == moved_column(column as int, delta as int, count as int),
{
    let last = if count == 0 { 0 } else { count - 1 };
    let from = column_in_range(column, count);
    let to: i64 = from as i64 + delta;
    if to < 0 {
        0
    } else if to > last as i64 {
        last
    } else {
        to as usize
    }
}

/// The records as plain values.
pub open spec fn record_views(recs: Seq<TaskRecord>) -> Seq<RecordView> {
    recs.map_values(|r: TaskRecord| r@)
}

/// The first record of task `g`, if any.
pub open spec fn record_position(recs: Seq<RecordView>, g: Seq<char>) -> Option<int>
    decreases recs.len(),
{
    if recs.len() == 0 {
        None
    } else {
        match record_position(recs.drop_last(), g) {
            Some(i) => Some(i),
            None => if recs.last().gid == g { Some(recs.len() - 1) } else { None },
        }
    }
}

/// The web address of task `gid` in project `project_gid`.
pub open spec fn task_url(project_gid: Seq<char>, gid: Seq<char>) -> Seq<char> {
    "https://app.asana.com/0/"@ + project_gid + "/"@ + gid
}

/// The checklist line a row contributes: a chosen task whose record names a
/// project becomes a link to it under the record's name.
pub open spec fn checklist_line(row: RowView, chosen: Set<Seq<char>>, recs: Seq<RecordView>) -> Option<Seq<char>> {
    if row.is_task && chosen.contains(row.gid) {
        match record_position(recs, row.gid) {
            Some(k) => if recs[k].project_gids.len() > 0 {
                Some("- [ ] ["@ + recs[k].name + "]("@ + task_url(recs[k].project_gids[0], row.gid) + ")"@)
            } else {
                None
            },
            None => None,
        }
    } else {
        None
    }
}

/// The chosen tasks, in the order the rows show them, as a checklist with
/// one line each, every line ended by a newline.
pub open spec fn checklist(rows: Seq<RowView>, chosen: Set<Seq<char>>, recs: Seq<RecordView>) -> Seq<char>
    decreases rows.len(),
{
    if rows.len() == 0 {
        Seq::empty()
    } else {
        checklist(rows.drop_last(), chosen, recs) + match checklist_line(rows.last(), chosen, recs) {
            Some(l) => l + "\n"@,
            None => Seq::empty(),
        }
    }
}

/// Where the first record of task `gid` stands, if any.
pub fn find_record(records: &[TaskRecord], gid: &String) -> (r: Option<usize>)
    ensures
        (match r { Some(k) => Some(k as int), None => None }) == record_position(record_views(records@), gid@),
        r matches Some(k) ==> k < records@.len(),
{
    let ghost rv = record_views(records@);
    let mut i: usize = 0;
    while i < records.len()
        invariant
            i <= records@.len(),
            rv == record_views(records@),
            record_position(rv.take(i as int), gid@) is None,
        decreases records.len() - i,
    {
        assert(rv.take(i as int + 1).drop_last() =~= rv.take(i as int));
        assert(rv[i as int] == records@[i as int]@);
        if records[i].gid == *gid {
            proof {
                lemma_record_position_prefix(rv, gid@, i as int + 1);
            }
            return Some(i);
        }
        i += 1;
    }
    assert(rv.take(i as int) =~= rv);
    None
}

/// A record found in a prefix is found at the same place in the whole list.
proof fn lemma_record_position_prefix(recs: Seq<RecordView>, g: Seq<char>, n: int)
    requires
        0 <= n <= recs.len(),
        record_position(recs.take(n), g) is Some,
    ensures
        record_position(recs, g) == record_position(recs.take(n), g),
    decreases recs.len(),
{
    if n < recs.len() {
        assert(recs.drop_last().take(n) =~= recs.take(n));
        lemma_record_position_prefix(recs.drop_last(), g, n);
    } else {
        assert(recs.take(n) =~= recs);
    }
}

/// The chosen tasks as a checklist for the clipboard: one line per chosen
/// task row, in the table's order, each a link to the task under its name
/// (a task whose record names no project is left out); empty when there is
/// no such row.
pub fn clipboard_markdown(rows: &[TableRow], chosen: &TaskSelection, records: &[TaskRecord]) -> (r: String)
    ensures
        r@ == checklist(rows_view(rows@), chosen@, record_views(records@)),
{
    let ghost rv = rows_view(rows@);
    let ghost recs = record_views(records@);
    let mut out = String::new();
    let mut i: usize = 0;
    while i < rows.len()
        invariant
            i <= rows@.len(),
            rv == rows_view(rows@),
            recs == record_views(records@),
            out@ == checklist(rv.take(i as int), chosen@, recs),
        decreases rows.len() - i,
    {
        assert(rv.take(i as int + 1).drop_last() =~= rv.take(i as int));
        assert(rv[i as int] == rows@[i as int]@);
        let row = &rows[i];
        if row.is_task && chosen.contains(&row.gid) {
            if let Some(k) = find_record(records, &row.gid) {
                let record = &records[k];
                assert(recs[k as int] == record@);
                if record.project_gids.len() > 0 {
                    let ghost before = out@;
                    push_str(&mut out, "- [ ] [");
                    push_str(&mut out, record.name.as_str());
                    push_str(&mut out, "](https://app.asana.com/0/");
                    push_str(&mut out, record.project_gids[0].as_str());
                    push_str(&mut out, "/");
                    push_str(&mut out, row.gid.as_str());
                    push_str(&mut out, ")");
                    push_str(&mut out, "\n");
                    proof {
                        reveal_strlit("](https://app.asana.com/0/");
                        reveal_strlit("](");
                        reveal_strlit("https://app.asana.com/0/");
                        assert("](https://app.asana.com/0/"@ =~= "]("@ + "https://app.asana.com/0/"@);
                        assert(out@ =~= before + ("- [ ] ["@ + record@.name + "]("@
                            + task_url(record@.project_gids[0], row@.gid) + ")"@) + "\n"@);
                    }
                }
            }
        }
        i += 1;
    }
    assert(rv.take(i as int) =~= rv);
    out
}

/// The web address of task `gid`, under the first project its record names;
/// `None` when there is no record of it or the record names no project.
pub fn task_link(records: &[TaskRecord], gid: &String) -> (r: Option<String>)
    ensures
        (match r { Some(u) => Some(u@), None => None }) == (match record_position(record_views(records@), gid@) {
            Some(k) => if record_views(records@)[k].project_gids.len() > 0 {
                Some(task_url(record_views(records@)[k].project_gids[0], gid@))
            } else {
                None
            },
            None => None,
        }),
{
    match find_record(records, gid) {
        Some(k) => {
            let record = &records[k];
            assert(record_views(records@)[k as int] == record@);
            if record.project_gids.len() > 0 {
                let mut url = String::new();
                push_str(&mut url, "https://app.asana.com/0/");
                push_str(&mut url, record.project_gids[0].as_str());
                push_str(&mut url, "/");
                push_str(&mut url, gid.as_str());
                Some(url)
            } else {
                None
            }
        },
        None => None,
    }
}

/// Choosing a task twice over leaves the choices as they were.
pub proof fn lemma_toggling_twice_restores(chosen: Set<Seq<char>>, g: Seq<char>)
    ensures
        ({
            let once = if chosen.contains(g) { chosen.remove(g) } else { chosen.insert(g) };
            if once.contains(g) { once.remove(g) } else { once.insert(g) }
        }) == chosen,
{
    let once = if chosen.contains(g) { chosen.remove(g) } else { chosen.insert(g) };
    let twice = if once.contains(g) { once.remove(g) } else { once.insert(g) };
    assert(twice =~= chosen);
}

/// Inverting the choices twice over the same rows keeps exactly the chosen
/// tasks that the rows show.
pub proof fn lemma_inverting_twice_keeps_shown_choices(chosen: Set<Seq<char>>, rows: Seq<RowView>)
    ensures
        shown_tasks(rows).difference(shown_tasks(rows).difference(chosen)) == chosen.intersect(shown_tasks(rows)),
{
    assert(shown_tasks(rows).difference(shown_tasks(rows).difference(chosen)) =~= chosen.intersect(shown_tasks(rows)));
}

/// The first chosen project found lies within the list and is chosen, and
/// none before it is.
proof fn lemma_first_chosen(ps: Seq<Seq<char>>, chosen: Seq<Seq<char>>)
    ensures
        match first_chosen(ps, chosen) {
            Some(k) => 0 <= k < ps.len() && chosen.contains(ps[k])
                && forall|j: int| 0 <= j < k ==> !chosen.contains(#[trigger] ps[j]),
            None => forall|j: int| 0 <= j < ps.len() ==> !chosen.contains(#[trigger] ps[j]),
        },
    decreases ps.len(),
{
    if ps.len() > 0 {
        lemma_first_chosen(ps.drop_last(), chosen);
        let d = ps.drop_last();
        assert forall|j: int| 0 <= j < d.len() implies d[j] == ps[j] by {};
    }
}

/// Putting the chosen project first keeps every project, once each as
/// before: the list is the same length and is a reordering of the old one;
/// its first entry is a chosen project whenever the list names one.
pub proof fn lemma_leading_keeps_projects(ps: Seq<Seq<char>>, chosen: Seq<Seq<char>>)
    ensures
        led_by_chosen(ps, chosen).len() == ps.len(),
        led_by_chosen(ps, chosen).to_multiset() == ps.to_multiset(),
        (exists|j: int| 0 <= j < ps.len() && chosen.contains(#[trigger] ps[j]))
            ==> chosen.contains(led_by_chosen(ps, chosen)[0]),
{
    lemma_first_chosen(ps, chosen);
    match first_chosen(ps, chosen) {
        Some(k) => {
            let head = seq![ps[k]];
            let front = ps.take(k);
            let back = ps.skip(k + 1);
            vstd::seq_lib::lemma_multiset_commutative(head, front);
            vstd::seq_lib::lemma_multiset_commutative(head + front, back);
            vstd::seq_lib::lemma_multiset_commutative(front, head);
            vstd::seq_lib::lemma_multiset_commutative(front + head, back);
            assert(front + head + back =~= ps);
            assert(head + front + back =~= led_by_chosen(ps, chosen));
        },
        None => {},
    }
}

/// A task the rows show is found, at a row that stands for it.
proof fn lemma_gid_found(rows: Seq<RowView>, g: Seq<char>, i: int)
    requires
        0 <= i < rows.len(),
        rows[i].gid == g,
    ensures
        gid_position(rows, g) matches Some(k) && 0 <= k <= i && rows[k].gid == g,
    decreases rows.len(),
{
    if i < rows.len() - 1 {
        lemma_gid_found(rows.drop_last(), g, i);
        let k = gid_position(rows.drop_last(), g)->0;
        assert(rows.drop_last()[k] == rows[k]);
    } else {
        match gid_position(rows.drop_last(), g) {
            Some(k) => {
                lemma_gid_position_bound(rows.drop_last(), g);
                assert(rows.drop_last()[k] == rows[k]);
            },
            None => {},
        }
    }
}

/// A row found for a task stands for it.
proof fn lemma_gid_position_bound(rows: Seq<RowView>, g: Seq<char>)
    ensures
        gid_position(rows, g) matches Some(k) ==> 0 <= k < rows.len() && rows[k].gid == g,
    decreases rows.len(),
{
    if rows.len() > 0 {
        lemma_gid_position_bound(rows.drop_last(), g);
        match gid_position(rows.drop_last(), g) {
            Some(k) => { assert(rows.drop_last()[k] == rows[k]); },
            None => {},
        }
    }
}

/// After the table is rebuilt, the cursor stays on its task whenever the
/// table still shows that task.
pub proof fn lemma_cursor_follows_its_task(
    rows: Seq<RowView>,
    g: Seq<char>,
    parent_gid: Option<Seq<char>>,
    previous: Option<int>,
    i: int,
)
    requires
        0 <= i < rows.len(),
        rows[i].gid == g,
    ensures
        restored_cursor(rows, Some(g), parent_gid, previous) matches Some(k)
            && 0 <= k < rows.len() && rows[k].gid == g,
{
    lemma_gid_found(rows, g, i);
}

/// The chosen tasks among the rows, in the rows' order.
pub open spec fn chosen_in_rows(rows: Seq<RowView>, chosen: Set<Seq<char>>) -> Seq<Seq<char>>
    decreases rows.len(),
{
    if rows.len() == 0 {
        Seq::empty()
    } else {
        let before = chosen_in_rows(rows.drop_last(), chosen);
        if rows.last().is_task && chosen.contains(rows.last().gid) { before.push(rows.last().gid) } else { before }
    }
}

/// The tasks an edit applies to: the chosen ones, the recently edited pane
/// first and then the table, each in reading order; or, when none is
/// chosen, the task under the cursor.
pub open spec fn edit_targets_of(
    recent: Seq<RowView>,
    rows: Seq<RowView>,
    chosen: Set<Seq<char>>,
    cursor_gid: Option<Seq<char>>,
) -> Seq<Seq<char>> {
    let picked = chosen_in_rows(recent + rows, chosen);
    if picked.len() > 0 {
        picked
    } else {
        match cursor_gid {
            Some(g) => seq![g],
            None => Seq::empty(),
        }
    }
}

/// Appends the chosen tasks among `rows` to `out`, in order.
fn push_chosen(out: &mut Vec<String>, rows: &[TableRow], chosen: &TaskSelection)
    ensures
        texts(final(out)@) == texts(old(out)@) + chosen_in_rows(rows_view(rows@), chosen@),
{
    let ghost rv = rows_view(rows@);
    let ghost start = texts(out@);
    let mut i: usize = 0;
    while i < rows.len()
        invariant
            i <= rows@.len(),
            rv == rows_view(rows@),
            texts(out@) == start + chosen_in_rows(rv.take(i as int), chosen@),
        decreases rows.len() - i,
    {
        assert(rv.take(i as int + 1).drop_last() =~= rv.take(i as int));
        assert(rv[i as int] == rows@[i as int]@);
        let ghost before = texts(out@);
        if rows[i].is_task && chosen.contains(&rows[i].gid) {
            let c = rows[i].gid.clone();
            out.push(c);
            assert(texts(out@) =~= before.push(rv[i as int].gid));
        }
        i += 1;
        assert(texts(out@) =~= start + chosen_in_rows(rv.take(i as int), chosen@));
    }
    assert(rv.take(i as int) =~= rv);
}

/// The tasks an edit applies to: the chosen tasks the recently edited pane
/// and then the table show, in reading order; or else the task under the
/// cursor.
pub fn edit_targets(
    recent: &[TableRow],
    rows: &[TableRow],
    chosen: &TaskSelection,
    cursor_gid: Option<&String>,
) -> (r: Vec<String>)
    ensures
        texts(r@) == edit_targets_of(
            rows_view(recent@),
            rows_view(rows@),
            chosen@,
            match cursor_gid { Some(g) => Some(g@), None => None },
        ),
{
    let mut picked: Vec<String> = Vec::new();
    push_chosen(&mut picked, recent, chosen);
    push_chosen(&mut picked, rows, chosen);
    proof {
        lemma_chosen_concat(rows_view(recent@), rows_view(rows@), chosen@);
        assert(texts(Seq::<String>::empty()) =~= Seq::<Seq<char>>::empty());
    }
    if picked.len() > 0 {
        picked
    } else {
        match cursor_gid {
            Some(g) => {
                let r = vec![g.clone()];
                assert(texts(r@) =~= seq![g@]);
                r
            },
            None => {
                let r: Vec<String> = Vec::new();
                assert(texts(r@) =~= Seq::<Seq<char>>::empty());
                r
            },
        }
    }
}

/// Picking from two lists one after the other picks from the two joined.
proof fn lemma_chosen_concat(a: Seq<RowView>, b: Seq<RowView>, chosen: Set<Seq<char>>)
    ensures
        chosen_in_rows(a + b, chosen) == chosen_in_rows(a, chosen) + chosen_in_rows(b, chosen),
    decreases b.len(),
{
    if b.len() == 0 {
        assert(a + b =~= a);
        assert(chosen_in_rows(a, chosen) + chosen_in_rows(b, chosen) =~= chosen_in_rows(a, chosen));
    } else {
        lemma_chosen_concat(a, b.drop_last(), chosen);
        assert((a + b).drop_last() =~= a + b.drop_last());
        assert((a + b).last() == b.last());
        let x = chosen_in_rows(a, chosen);
        let y = chosen_in_rows(b.drop_last(), chosen);
        assert((x + y).push(b.last().gid) =~= x + y.push(b.last().gid));
    }
}

/// With nothing chosen, nothing is copied.
pub proof fn lemma_nothing_chosen_copies_nothing(rows: Seq<RowView>, records: Seq<RecordView>)
    ensures
        checklist(rows, Set::empty(), records) == Seq::<char>::empty(),
    decreases rows.len(),
{
    if rows.len() > 0 {
        lemma_nothing_chosen_copies_nothing(rows.drop_last(), records);
        assert(checklist(rows, Set::empty(), records) =~= Seq::<char>::empty());
    }
}

} // verus!
