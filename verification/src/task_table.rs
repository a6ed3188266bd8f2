//! The task table as the cursor sees it: the table's rows, the pane of
//! recently edited tasks above it, one cursor over both, the column cursor
//! and the chosen tasks; and what each of the table's own actions does to
//! them.

use vstd::prelude::*;
use crate::records::TaskRecord;
use crate::records::RecordView;
use crate::table::{
    RowView, TableRow, TaskSelection, checklist, clipboard_markdown, column_in_range, find_record,
    first_selectable, gid_position, last_selectable, last_selectable_within, move_column, moved_column,
    record_position, record_views, restore_cursor, restored_cursor, rows_view, shown_column, shown_tasks,
};

verus! {

/// The table's own actions.
#[derive(Clone, Copy, Debug, PartialEq, Eq, Structural)]
pub enum TableAction {
    MoveUp,
    MoveDown,
    JumpTop,
    JumpBottom,
    ColumnPrev,
    ColumnNext,
    ToggleSelection,
    SelectAllShown,
    InvertSelection,
    ClearSelection,
    ClearHiddenSelection,
    CopyToClipboard,
}

/// The table as plain values.
pub struct TableModel {
    pub rows: Seq<RowView>,
    pub recent: Seq<RowView>,
    pub recent_hidden: bool,
    pub selected: Option<int>,
    pub recent_selected: Option<int>,
    pub column: int,
    pub column_count: int,
    pub chosen: Set<Seq<char>>,
}

/// The first row after `i` the cursor may rest on, if any.
pub open spec fn next_selectable(rows: Seq<RowView>, i: int) -> Option<int>
    decreases rows.len(),
{
    if rows.len() == 0 {
        None
    } else {
        match next_selectable(rows.drop_last(), i) {
            Some(j) => Some(j),
            None => if rows.len() - 1 > i && rows.last().selectable { Some(rows.len() - 1) } else { None },
        }
    }
}

/// The last row before `i` the cursor may rest on, if any.
pub open spec fn previous_selectable(rows: Seq<RowView>, i: int) -> Option<int> {
    last_selectable_within(rows, i - 1)
}

/// Whether the pane of recent edits is drawn.
pub open spec fn recent_visible(m: TableModel) -> bool {
    !m.recent_hidden && m.recent.len() > 0
}

/// The cursor leaves the pane for the table, onto its first row when it
/// had none there.
pub open spec fn left_recent(m: TableModel) -> TableModel {
    if m.recent_selected is None {
        m
    } else {
        TableModel {
            recent_selected: None,
            selected: if m.selected is None { first_selectable(m.rows) } else { m.selected },
            ..m
        }
    }
}

/// The pane hidden or shown again; hiding it takes the cursor back to the
/// table.
pub open spec fn recent_toggled(m: TableModel) -> TableModel {
    let flipped = TableModel { recent_hidden: !m.recent_hidden, ..m };
    if flipped.recent_hidden { left_recent(flipped) } else { flipped }
}

/// One row up: within the pane, or up the table and off its top into the
/// pane when it is drawn.
pub open spec fn moved_up(m: TableModel) -> TableModel {
    match m.recent_selected {
        Some(i) => TableModel {
            recent_selected: match previous_selectable(m.recent, i) { Some(p) => Some(p), None => Some(i) },
            ..m
        },
        None => match m.selected {
            None => m,
            Some(i) => match previous_selectable(m.rows, i) {
                Some(p) => TableModel { selected: Some(p), ..m },
                None => if recent_visible(m) {
                    TableModel { recent_selected: last_selectable(m.recent), ..m }
                } else {
                    m
                },
            },
        },
    }
}

/// One row down: within the pane and off its bottom into the table, or
/// down the table; onto the first row when there is no cursor.
pub open spec fn moved_down(m: TableModel) -> TableModel {
    match m.recent_selected {
        Some(i) => match next_selectable(m.recent, i) {
            Some(n) => TableModel { recent_selected: Some(n), ..m },
            None => left_recent(m),
        },
        None => match m.selected {
            Some(i) => match next_selectable(m.rows, i) {
                Some(n) => TableModel { selected: Some(n), ..m },
                None => m,
            },
            None => TableModel { selected: first_selectable(m.rows), ..m },
        },
    }
}

/// The task under the cursor, if the cursor is on a task row.
pub open spec fn cursor_task(m: TableModel) -> Option<Seq<char>> {
    let row = match m.recent_selected {
        Some(i) => if 0 <= i < m.recent.len() { Some(m.recent[i]) } else { None },
        None => match m.selected {
            Some(i) => if 0 <= i < m.rows.len() { Some(m.rows[i]) } else { None },
            None => None,
        },
    };
    match row {
        Some(r) => if r.is_task { Some(r.gid) } else { None },
        None => None,
    }
}

/// What a table action does, and the text it hands to the clipboard.
pub open spec fn table_action_of(
    m: TableModel,
    a: TableAction,
    records: Seq<RecordView>,
) -> (TableModel, Option<Seq<char>>) {
    match a {
        TableAction::MoveUp => (moved_up(m), None),
        TableAction::MoveDown => (moved_down(m), None),
        TableAction::JumpTop => (TableModel { selected: first_selectable(m.rows), ..left_recent(m) }, None),
        TableAction::JumpBottom => (TableModel { selected: last_selectable(m.rows), ..left_recent(m) }, None),
        TableAction::ColumnPrev => (TableModel { column: moved_column(m.column, -1, m.column_count), ..m }, None),
        TableAction::ColumnNext => (TableModel { column: moved_column(m.column, 1, m.column_count), ..m }, None),
        TableAction::ToggleSelection => match cursor_task(m) {
            Some(g) => (
                moved_down(TableModel {
                    chosen: if m.chosen.contains(g) { m.chosen.remove(g) } else { m.chosen.insert(g) },
                    ..m
                }),
                None,
            ),
            None => (m, None),
        },
        TableAction::SelectAllShown => (TableModel { chosen: m.chosen.union(shown_tasks(m.rows)), ..m }, None),
        TableAction::InvertSelection => (TableModel { chosen: shown_tasks(m.rows).difference(m.chosen), ..m }, None),
        TableAction::ClearSelection => (TableModel { chosen: Set::empty(), ..m }, None),
        TableAction::ClearHiddenSelection => (TableModel { chosen: m.chosen.intersect(shown_tasks(m.rows)), ..m }, None),
        TableAction::CopyToClipboard => {
            let text = checklist(m.rows, m.chosen, records);
            (m, if text.len() > 0 { Some(text) } else { None })
        },
    }
}

/// The first row after `i` the cursor may rest on, if any.
pub fn next_selectable_row(rows: &[TableRow], i: usize) -> (r: Option<usize>)
    ensures
        (match r { Some(k) => Some(k as int), None => None }) == next_selectable(rows_view(rows@), i as int),
        r matches Some(k) ==> k < rows@.len(),
{
    let ghost rv = rows_view(rows@);
    let mut j: usize = 0;
    while j < rows.len()
        invariant
            j <= rows@.len(),
            rv == rows_view(rows@),
            next_selectable(rv.take(j as int), i as int) is None,
        decreases rows.len() - j,
    {
        assert(rv.take(j as int + 1).drop_last() =~= rv.take(j as int));
        assert(rv[j as int] == rows@[j as int]@);
        if j > i && rows[j].selectable {
            proof { lemma_next_prefix(rv, i as int, j as int + 1); }
            return Some(j);
        }
        j += 1;
    }
    assert(rv.take(j as int) =~= rv);
    None
}

/// A row found in a prefix is found at the same place in the whole list.
proof fn lemma_next_prefix(rows: Seq<RowView>, i: int, n: int)
    requires
        0 <= n <= rows.len(),
        next_selectable(rows.take(n), i) is Some,
    ensures
        next_selectable(rows, i) == next_selectable(rows.take(n), i),
    decreases rows.len(),
{
    if n < rows.len() {
        assert(rows.drop_last().take(n) =~= rows.take(n));
        lemma_next_prefix(rows.drop_last(), i, n);
    } else {
        assert(rows.take(n) =~= rows);
    }
}

/// The last row before `i` the cursor may rest on, if any.
pub fn previous_selectable_row(rows: &[TableRow], i: usize) -> (r: Option<usize>)
    ensures
        (match r { Some(k) => Some(k as int), None => None }) == previous_selectable(rows_view(rows@), i as int),
        r matches Some(k) ==> k < rows@.len(),
{
    let ghost rv = rows_view(rows@);
    let mut best: Option<usize> = None;
    let mut j: usize = 0;
    while j < rows.len()
        invariant
            j <= rows@.len(),
            rv == rows_view(rows@),
            (match best { Some(k) => Some(k as int), None => None }) == last_selectable_within(rv.take(j as int), i - 1),
            best matches Some(k) ==> k < j,
        decreases rows.len() - j,
    {
        assert(rv.take(j as int + 1).drop_last() =~= rv.take(j as int));
        assert(rv[j as int] == rows@[j as int]@);
        if j < i && rows[j].selectable {
            best = Some(j);
        }
        j += 1;
    }
    assert(rv.take(j as int) =~= rv);
    best
}

/// The first row the cursor may rest on, if any.
pub fn first_selectable_row(rows: &[TableRow]) -> (r: Option<usize>)
    ensures
        (match r { Some(k) => Some(k as int), None => None }) == first_selectable(rows_view(rows@)),
        r matches Some(k) ==> k < rows@.len(),
{
    let ghost rv = rows_view(rows@);
    let mut j: usize = 0;
    while j < rows.len()
        invariant
            j <= rows@.len(),
            rv == rows_view(rows@),
            first_selectable(rv.take(j as int)) is None,
        decreases rows.len() - j,
    {
        assert(rv.take(j as int + 1).drop_last() =~= rv.take(j as int));
        assert(rv[j as int] == rows@[j as int]@);
        if rows[j].selectable {
            proof { lemma_first_prefix(rv, j as int + 1); }
            return Some(j);
        }
        j += 1;
    }
    assert(rv.take(j as int) =~= rv);
    None
}

/// A row found in a prefix is found at the same place in the whole list.
proof fn lemma_first_prefix(rows: Seq<RowView>, n: int)
    requires
        0 <= n <= rows.len(),
        first_selectable(rows.take(n)) is Some,
    ensures
        first_selectable(rows) == first_selectable(rows.take(n)),
    decreases rows.len(),
{
    if n < rows.len() {
        assert(rows.drop_last().take(n) =~= rows.take(n));
        lemma_first_prefix(rows.drop_last(), n);
    } else {
        assert(rows.take(n) =~= rows);
    }
}

/// The last row the cursor may rest on, if any.
pub fn last_selectable_row(rows: &[TableRow]) -> (r: Option<usize>)
    ensures
        (match r { Some(k) => Some(k as int), None => None }) == last_selectable(rows_view(rows@)),
        r matches Some(k) ==> k < rows@.len(),
{
    let ghost rv = rows_view(rows@);
    let ghost total = rows@.len() as int;
    let mut best: Option<usize> = None;
    let mut j: usize = 0;
    while j < rows.len()
        invariant
            j <= rows@.len(),
            rv == rows_view(rows@),
            total == rows@.len(),
            (match best { Some(k) => Some(k as int), None => None }) == last_selectable_within(rv.take(j as int), total),
            best matches Some(k) ==> k < j,
        decreases rows.len() - j,
    {
        assert(rv.take(j as int + 1).drop_last() =~= rv.take(j as int));
        assert(rv[j as int] == rows@[j as int]@);
        if rows[j].selectable {
            best = Some(j);
        }
        j += 1;
    }
    assert(rv.take(j as int) =~= rv);
    best
}

/// The row that stands for task `g`, if any.
pub fn find_row(rows: &[TableRow], g: &String) -> (r: Option<usize>)
    ensures
        (match r { Some(k) => Some(k as int), None => None }) == gid_position(rows_view(rows@), g@),
        r matches Some(k) ==> k < rows@.len(),
{
    let ghost rv = rows_view(rows@);
    let mut j: usize = 0;
    while j < rows.len()
        invariant
            j <= rows@.len(),
            rv == rows_view(rows@),
            gid_position(rv.take(j as int), g@) is None,
        decreases rows.len() - j,
    {
        assert(rv.take(j as int + 1).drop_last() =~= rv.take(j as int));
        assert(rv[j as int] == rows@[j as int]@);
        if rows[j].gid == *g {
            proof { lemma_gid_prefix(rv, g@, j as int + 1); }
            return Some(j);
        }
        j += 1;
    }
    assert(rv.take(j as int) =~= rv);
    None
}

/// A row found in a prefix is found at the same place in the whole list.
proof fn lemma_gid_prefix(rows: Seq<RowView>, g: Seq<char>, n: int)
    requires
        0 <= n <= rows.len(),
        gid_position(rows.take(n), g) is Some,
    ensures
        gid_position(rows, g) == gid_position(rows.take(n), g),
    decreases rows.len(),
{
    if n < rows.len() {
        assert(rows.drop_last().take(n) =~= rows.take(n));
        lemma_gid_prefix(rows.drop_last(), g, n);
    } else {
        assert(rows.take(n) =~= rows);
    }
}

/// The parent of task `g` by its record, if it has one.
pub open spec fn parent_of(records: Seq<RecordView>, g: Option<Seq<char>>) -> Option<Seq<char>> {
    match g {
        Some(t) => match record_position(records, t) {
            Some(k) => records[k].parent_gid,
            None => None,
        },
        None => None,
    }
}

/// The table rebuilt as `rows` under a pane of `recent` rows with `count`
/// columns: the cursor follows its task, into the pane (which is then
/// drawn) when the table lost it; the table's cursor falls back as
/// `restored_cursor` says; the column cursor is held to the columns.
pub open spec fn rebuilt(
    m: TableModel,
    rows: Seq<RowView>,
    recent: Seq<RowView>,
    count: int,
    records: Seq<RecordView>,
) -> TableModel {
    let g = cursor_task(m);
    let in_table = match g { Some(t) => gid_position(rows, t), None => None };
    let in_recent = if in_table is Some { None } else {
        match g { Some(t) => gid_position(recent, t), None => None }
    };
    TableModel {
        rows,
        recent,
        recent_hidden: if in_recent is Some { false } else { m.recent_hidden },
        selected: restored_cursor(rows, g, parent_of(records, g), m.selected),
        recent_selected: in_recent,
        column: shown_column(m.column, count),
        column_count: count,
        chosen: m.chosen,
    }
}

/// The task table's cursor state.
#[derive(Debug)]
pub struct TaskTable {
    rows: Vec<TableRow>,
    recent: Vec<TableRow>,
    recent_hidden: bool,
    selected: Option<usize>,
    recent_selected: Option<usize>,
    column: usize,
    column_count: usize,
    chosen: TaskSelection,
}

impl TaskTable {
    /// The table as plain values.
    pub closed spec fn model(&self) -> TableModel {
        TableModel {
            rows: rows_view(self.rows@),
            recent: rows_view(self.recent@),
            recent_hidden: self.recent_hidden,
            selected: match self.selected { Some(i) => Some(i as int), None => None },
            recent_selected: match self.recent_selected { Some(i) => Some(i as int), None => None },
            column: self.column as int,
            column_count: self.column_count as int,
            chosen: self.chosen@,
        }
    }

    /// Each chosen task is held once, and the column count fits the
    /// arithmetic of the column cursor.
    pub closed spec fn wf(&self) -> bool {
        &&& self.chosen.wf()
        &&& self.column_count <= i64::MAX
    }

    /// An empty table with no cursor, nothing chosen and the pane drawn.
    pub fn new() -> (r: TaskTable)
        ensures
            r.wf(),
            r.model() == (TableModel {
                rows: Seq::empty(),
                recent: Seq::empty(),
                recent_hidden: false,
                selected: None,
                recent_selected: None,
                column: 0,
                column_count: 0,
                chosen: Set::empty(),
            }),
    {
        let r = TaskTable {
            rows: Vec::new(),
            recent: Vec::new(),
            recent_hidden: false,
            selected: None,
            recent_selected: None,
            column: 0,
            column_count: 0,
            chosen: TaskSelection::new(),
        };
        assert(rows_view(r.rows@) =~= Seq::<RowView>::empty());
        r
    }

    /// The task under the cursor, if it is on one.
    pub fn cursor_task(&self) -> (r: Option<String>)
        ensures
            (match r { Some(g) => Some(g@), None => None }) == cursor_task(self.model()),
    {
        let row = match self.recent_selected {
            Some(i) => if i < self.recent.len() { Some(&self.recent[i]) } else { None },
            None => match self.selected {
                Some(i) => if i < self.rows.len() { Some(&self.rows[i]) } else { None },
                None => None,
            },
        };
        proof {
            match self.recent_selected {
                Some(i) => if i < self.recent.len() { assert(rows_view(self.recent@)[i as int] == self.recent@[i as int]@); },
                None => match self.selected {
                    Some(i) => if i < self.rows.len() { assert(rows_view(self.rows@)[i as int] == self.rows@[i as int]@); },
                    None => {},
                },
            }
        }
        match row {
            Some(r) => if r.is_task { Some(r.gid.clone()) } else { None },
            None => None,
        }
    }

    /// The row the table's cursor is on.
    pub fn selected(&self) -> (r: Option<usize>)
        ensures
            (match r { Some(i) => Some(i as int), None => None }) == self.model().selected,
    {
        self.selected
    }

    /// The row the pane's cursor is on, when the cursor is in the pane.
    pub fn recent_selected(&self) -> (r: Option<usize>)
        ensures
            (match r { Some(i) => Some(i as int), None => None }) == self.model().recent_selected,
    {
        self.recent_selected
    }

    /// The column the cursor stands in.
    pub fn column(&self) -> (r: usize)
        ensures
            r == self.model().column,
    {
        self.column
    }

    /// The tasks chosen for a bulk action.
    pub fn chosen(&self) -> (r: &TaskSelection)
        ensures
            r@ == self.model().chosen,
            self.wf() ==> r.wf(),
    {
        &self.chosen
    }

    /// Whether the pane of recent edits is drawn.
    pub fn recent_visible(&self) -> (r: bool)
        ensures
            r == recent_visible(self.model()),
    {
        !self.recent_hidden && self.recent.len() > 0
    }

    /// Hides the pane of recent edits, taking the cursor back to the table,
    /// or shows it again.
    pub fn toggle_recent_pane(&mut self)
        requires
            old(self).wf(),
        ensures
            final(self).wf(),
            final(self).model() == recent_toggled(old(self).model()),
    {
        self.recent_hidden = !self.recent_hidden;
        if self.recent_hidden {
            self.leave_recent();
        }
    }

    /// Takes the rebuilt table and pane, and puts the cursor back.
    pub fn rebuild(&mut self, rows: Vec<TableRow>, recent: Vec<TableRow>, column_count: usize, records: &[TaskRecord])
        requires
            old(self).wf(),
            column_count <= i64::MAX,
        ensures
            final(self).wf(),
            final(self).model() == rebuilt(old(self).model(), rows_view(rows@), rows_view(recent@), column_count as int, record_views(records@)),
    {
        let g = self.cursor_task();
        let parent: Option<String> = match &g {
            Some(t) => match find_record(records, t) {
                Some(k) => {
                    assert(record_views(records@)[k as int] == records@[k as int]@);
                    match &records[k].parent_gid {
                        Some(p) => Some(p.clone()),
                        None => None,
                    }
                },
                None => None,
            },
            None => None,
        };
        let selected = restore_cursor(rows.as_slice(), g.as_ref(), parent.as_ref(), self.selected);
        let in_table = match &g {
            Some(t) => find_row(rows.as_slice(), t),
            None => None,
        };
        let in_recent = if in_table.is_some() {
            None
        } else {
            match &g {
                Some(t) => find_row(recent.as_slice(), t),
                None => None,
            }
        };
        if in_recent.is_some() {
            self.recent_hidden = false;
        }
        self.column = column_in_range(self.column, column_count);
        self.column_count = column_count;
        self.selected = selected;
        self.recent_selected = in_recent;
        self.rows = rows;
        self.recent = recent;
    }

    fn leave_recent(&mut self)
        requires
            old(self).wf(),
        ensures
            final(self).wf(),
            final(self).model() == left_recent(old(self).model()),
    {
        if self.recent_selected.is_some() {
            self.recent_selected = None;
            if self.selected.is_none() {
                self.selected = first_selectable_row(self.rows.as_slice());
            }
        }
    }

    fn move_up(&mut self)
        requires
            old(self).wf(),
        ensures
            final(self).wf(),
            final(self).model() == moved_up(old(self).model()),
    {
        match self.recent_selected {
            Some(i) => {
                let p = previous_selectable_row(self.recent.as_slice(), i);
                self.recent_selected = match p { Some(k) => Some(k), None => Some(i) };
            },
            None => match self.selected {
                None => {},
                Some(i) => match previous_selectable_row(self.rows.as_slice(), i) {
                    Some(k) => { self.selected = Some(k); },
                    None => {
                        if !self.recent_hidden && self.recent.len() > 0 {
                            self.recent_selected = last_selectable_row(self.recent.as_slice());
                        }
                    },
                },
            },
        }
    }

    fn move_down(&mut self)
        requires
            old(self).wf(),
        ensures
            final(self).wf(),
            final(self).model() == moved_down(old(self).model()),
    {
        match self.recent_selected {
            Some(i) => match next_selectable_row(self.recent.as_slice(), i) {
                Some(n) => { self.recent_selected = Some(n); },
                None => { self.leave_recent(); },
            },
            None => match self.selected {
                Some(i) => match next_selectable_row(self.rows.as_slice(), i) {
                    Some(n) => { self.selected = Some(n); },
                    None => {},
                },
                None => { self.selected = first_selectable_row(self.rows.as_slice()); },
            },
        }
    }

    /// Carries out one of the table's actions on `records`, the tasks the
    /// table shows; hands back the text to put on the clipboard, when the
    /// action copies and there is any.
    pub fn apply(&mut self, action: TableAction, records: &[TaskRecord]) -> (r: Option<String>)
        requires
            old(self).wf(),
        ensures
            final(self).wf(),
            (final(self).model(), match r { Some(t) => Some(t@), None => None })
                == table_action_of(old(self).model(), action, record_views(records@)),
    {
        match action {
            TableAction::MoveUp => { self.move_up(); None },
            TableAction::MoveDown => { self.move_down(); None },
            TableAction::JumpTop => {
                self.leave_recent();
                self.selected = first_selectable_row(self.rows.as_slice());
                None
            },
            TableAction::JumpBottom => {
                self.leave_recent();
                self.selected = last_selectable_row(self.rows.as_slice());
                None
            },
            TableAction::ColumnPrev => {
                self.column = move_column(self.column, -1, self.column_count);
                None
            },
            TableAction::ColumnNext => {
                self.column = move_column(self.column, 1, self.column_count);
                None
            },
            TableAction::ToggleSelection => {
                match self.cursor_task() {
                    Some(g) => {
                        self.chosen.toggle(&g);
                        self.move_down();
                    },
                    None => {},
                }
                None
            },
            TableAction::SelectAllShown => {
                self.chosen.select_all_shown(self.rows.as_slice());
                None
            },
            TableAction::InvertSelection => {
                self.chosen.invert_shown(self.rows.as_slice());
                None
            },
            TableAction::ClearSelection => {
                self.chosen.clear();
                None
            },
            TableAction::ClearHiddenSelection => {
                self.chosen.retain_shown(self.rows.as_slice());
                None
            },
            TableAction::CopyToClipboard => {
                let text = clipboard_markdown(self.rows.as_slice(), &self.chosen, records);
                if text.as_str().is_empty() { None } else { Some(text) }
            },
        }
    }
}

/// The next row found lies after `i`, may take the cursor, and no row
/// between takes it.
proof fn lemma_next_found(rows: Seq<RowView>, i: int)
    ensures
        next_selectable(rows, i) matches Some(n) ==> i < n < rows.len() && 0 <= n && rows[n].selectable
            && forall|j: int| i < j < n && 0 <= j ==> !(#[trigger] rows[j]).selectable,
    decreases rows.len(),
{
    if rows.len() > 0 {
        let d = rows.drop_last();
        lemma_next_found(d, i);
        match next_selectable(d, i) {
            Some(n) => {
                assert(rows[n] == d[n]);
                assert forall|j: int| i < j < n && 0 <= j implies !(#[trigger] rows[j]).selectable by {
                    assert(rows[j] == d[j]);
                };
            },
            None => {
                if rows.len() - 1 > i && rows.last().selectable {
                    lemma_none_after(d, i);
                    assert forall|j: int| i < j < rows.len() - 1 && 0 <= j implies !(#[trigger] rows[j]).selectable by {
                        assert(rows[j] == d[j]);
                    };
                }
            },
        }
    }
}

/// When no row after `i` is found, none after it may take the cursor.
proof fn lemma_none_after(rows: Seq<RowView>, i: int)
    ensures
        next_selectable(rows, i) is None ==> forall|j: int| i < j < rows.len() && 0 <= j ==> !(#[trigger] rows[j]).selectable,
    decreases rows.len(),
{
    if rows.len() > 0 {
        let d = rows.drop_last();
        lemma_none_after(d, i);
        if next_selectable(rows, i) is None {
            assert forall|j: int| i < j < rows.len() && 0 <= j implies !(#[trigger] rows[j]).selectable by {
                if j < rows.len() - 1 {
                    assert(rows[j] == d[j]);
                }
            };
        }
    }
}

/// The last row at or above `b` is `k` when `k` may take the cursor and no
/// row after it up to `b` may.
proof fn lemma_last_within_is(rows: Seq<RowView>, b: int, k: int)
    requires
        0 <= k <= b,
        k < rows.len(),
        rows[k].selectable,
        forall|j: int| k < j <= b && j < rows.len() ==> !(#[trigger] rows[j]).selectable,
    ensures
        last_selectable_within(rows, b) == Some(k),
    decreases rows.len(),
{
    if rows.len() - 1 == k {
    } else {
        let d = rows.drop_last();
        assert(d[k] == rows[k]);
        assert forall|j: int| k < j <= b && j < d.len() implies !(#[trigger] d[j]).selectable by {
            assert(d[j] == rows[j]);
        };
        lemma_last_within_is(d, b, k);
        if rows.len() - 1 <= b {
            assert(!rows[rows.len() - 1].selectable);
        }
    }
}

/// A step down the table and a step back up return the cursor to the row
/// it stood on, when that row takes the cursor and another row below does.
pub proof fn lemma_down_then_up_returns(m: TableModel)
    requires
        m.recent_selected is None,
        m.selected matches Some(i) && 0 <= i < m.rows.len() && m.rows[i].selectable,
        next_selectable(m.rows, m.selected->0) is Some,
    ensures
        moved_up(moved_down(m)).selected == m.selected,
        moved_up(moved_down(m)).recent_selected is None,
{
    let i = m.selected->0;
    lemma_next_found(m.rows, i);
    let n = next_selectable(m.rows, i)->0;
    lemma_last_within_is(m.rows, n - 1, i);
}

} // verus!
