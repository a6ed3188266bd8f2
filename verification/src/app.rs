//! The session: which pane has the keys, the top pane's size, the saved
//! filter entries, and how a key or an action moves between them.
//!
//! What the session decides is verified here. What it then needs done
//! outside (a config write, a check on whether the task data must be
//! fetched again) comes back as [`Effects`] for the caller to carry out.

use vstd::prelude::*;
use crate::filter::{SavedFilterField, SavedFilterSet, SavedView};
use crate::filter_panel as fp;
use crate::filter_panel::{PanelView, SidebarPrompt};
use crate::gantt::{GanttConfig, GanttModel, MoveTo, cancel_of, cursor_move_of, move_value_of};
use crate::input::{AppCommand, KeyCode, KeyPress, command_of};
use crate::task_edit::EditorView;
use crate::text::{chars_of, eq_chars, lower, lower_char, lower_chars, push_char, push_str, string_from_chars, trim, trim_chars};
use crate::order::{chars_lt, str_less};
use crate::filter::SetView;
use crate::filter_edit::saved_rows;
use crate::text_edit::TextOp;
use crate::pane::{PaneMode, PaneModel, PaneSizeState, minimized, maximized, restored, resized};
use crate::project_list::{
    ListModel, PrefView, Project, ProjectListState, ProjectView, chosen, ProjectVisibilityConfig, action_model, cursor_id, failed, loaded,
    preferences_of, prefs_view, projects_view, rebuild,
};
use crate::error::Error;
use crate::task::{TaskModel, TaskState, loading_begun, loading_finished, calendar_begun, calendar_committed, calendar_stepped, scrolled_left, scrolled_right, with_cell_edit, with_filter};
use crate::task_edit::{cleared, cycled, cycle_fits, strings_view, text_edited};
use crate::calendar::CalendarStep;
use crate::filter::TaskFieldFilterKind;
use crate::filter_panel::{has_row, marked, row_of};
use crate::input::Action;
use crate::records::TaskRecord;
use crate::table::{TableRow, record_views, rows_view};
use crate::task_table::{TableAction, TableModel, TaskTable, rebuilt, table_action_of};

verus! {

/// Which part of the screen the keys go to.
#[derive(Clone, Copy, Debug, PartialEq, Eq, Structural)]
pub enum Mode {
    Project,
    ProjectSearch,
    Task,
    Filter,
    FilterEdit,
    Calendar,
    Gantt,
    GanttOrder,
    TaskEdit,
    FilterSetName,
}

/// A saved filter panel under the name it loads by.
#[derive(Debug)]
pub struct NamedFilterSet {
    pub name: String,
    pub sets: Vec<SavedFilterSet>,
}

/// A named entry as plain values.
pub struct NamedView {
    pub name: Seq<char>,
    pub sets: Seq<(bool, Seq<SavedView>)>,
}

impl View for NamedFilterSet {
    type V = NamedView;

    open spec fn view(&self) -> NamedView {
        NamedView { name: self.name@, sets: fp::saved_sets_view(self.sets@) }
    }
}

/// The entries as plain values.
pub open spec fn named_view(v: Seq<NamedFilterSet>) -> Seq<NamedView> {
    v.map_values(|e: NamedFilterSet| e@)
}

/// What the caller has to do once the session has decided.
#[derive(Clone, Copy, Debug, PartialEq, Eq, Structural)]
pub struct Effects {
    /// The saved filter entries changed: write them out, then report the
    /// outcome with [`App::report_write`].
    pub write_config: bool,
    /// Filters or targets may have moved: fetch task data again if what is
    /// cached no longer covers them.
    pub check_task_data: bool,
    /// The starred and hidden projects changed: write them out.
    pub persist_project_visibility: bool,
    /// The chart's colour order was committed: write it out.
    pub persist_gantt_colors: bool,
    /// The action is the task table's to carry out: its cursor, its
    /// columns, an edit committed from it, or the chart's reading of it.
    pub for_task_table: bool,
}

/// Only these two things to do.
pub open spec fn fx(write_config: bool, check_task_data: bool) -> Effects {
    Effects {
        write_config,
        check_task_data,
        persist_project_visibility: false,
        persist_gantt_colors: false,
        for_task_table: false,
    }
}

/// Nothing to do.
pub open spec fn no_effects() -> Effects {
    fx(false, false)
}

/// Only these two things to do.
fn effects(write_config: bool, check_task_data: bool) -> (r: Effects)
    ensures
        r == fx(write_config, check_task_data),
{
    Effects {
        write_config,
        check_task_data,
        persist_project_visibility: false,
        persist_gantt_colors: false,
        for_task_table: false,
    }
}

/// The session as plain values.
pub struct AppModel {
    pub projects: ListModel,
    pub tasks: TaskModel,
    pub mode: Mode,
    pub pane: PaneModel,
    pub filter_sets: Seq<NamedView>,
    /// The starred and hidden projects a listing is read with.
    pub visibility: Seq<PrefView>,
    /// The task writes of the current burst.
    pub edits: EditTally,
    /// Which task-data request is current: replies tagged with an older
    /// one are stale.
    pub generation: int,
    /// The task table's cursor and chosen tasks.
    pub table: TableModel,
}

/// The task writes of one burst: how many were sent, are still out, and
/// failed, and the last error, which is what a report quotes.
pub struct EditTally {
    pub sent: int,
    pub outstanding: int,
    pub failures: int,
    pub error: Option<Seq<char>>,
}

/// The settings a session starts from.
#[derive(Debug)]
pub struct Config {
    pub gantt: GanttConfig,
    pub project_visibility: Vec<ProjectVisibilityConfig>,
    pub filter_sets: Vec<NamedFilterSet>,
}

/// The session's state.
#[derive(Debug)]
pub struct App {
    pub projects: ProjectListState,
    pub tasks: TaskState,
    mode: Mode,
    panel_size: PaneSizeState,
    filter_sets: Vec<NamedFilterSet>,
    project_visibility: Vec<ProjectVisibilityConfig>,
    /// Counted rather than reported one by one: twelve failures is one
    /// report, not twelve that overwrite each other.
    task_edits_sent: usize,
    task_edits_outstanding: usize,
    task_edit_failures: usize,
    task_edit_error: Option<String>,
    task_data_generation: u64,
    table: TaskTable,
}

/// The most saved filter entries a session holds: the numbered window
/// pages through them in signed 32-bit steps of up to nine.
pub const MAX_SAVED_ENTRIES: usize = 0x7fff_0000;

/// What the session keeps true: the numbered window's start and the number
/// of entries fit the signed paging arithmetic.
pub open spec fn app_wf(m: AppModel) -> bool {
    &&& 0 <= m.tasks.filter.sidebar_page_start <= MAX_SAVED_ENTRIES
    &&& m.filter_sets.len() <= MAX_SAVED_ENTRIES
}

/// The filter panel shown or hidden; hiding it ends the edit.
pub open spec fn toggled_panel(t: TaskModel) -> TaskModel {
    with_filter(t, PanelView { visible: !t.filter.visible, editing: t.filter.editing && !t.filter.visible, ..t.filter })
}

/// The filter panel hidden.
pub open spec fn panel_hidden(t: TaskModel) -> TaskModel {
    if t.filter.visible { toggled_panel(t) } else { t }
}

/// The filter panel shown.
pub open spec fn panel_shown(t: TaskModel) -> TaskModel {
    if t.filter.visible { t } else { toggled_panel(t) }
}

/// The pane restored if it was minimised.
pub open spec fn unminimized(p: PaneModel) -> PaneModel {
    if p.mode == PaneMode::Minimized { restored(p) } else { p }
}

/// The project search closed.
pub open spec fn search_closed(l: ListModel) -> ListModel {
    if l.search_active { ListModel { search_active: false, ..l } } else { l }
}

/// What every switch to a mode that uses the top pane does first.
pub open spec fn prepared(m: AppModel) -> AppModel {
    AppModel { pane: unminimized(m.pane), projects: search_closed(m.projects), ..m }
}

/// The session in project mode.
pub open spec fn project_mode_of(m: AppModel) -> AppModel {
    let p = prepared(m);
    AppModel { tasks: panel_hidden(p.tasks), mode: Mode::Project, ..p }
}

/// The session typing a project search.
pub open spec fn project_search_mode_of(m: AppModel) -> AppModel {
    AppModel { pane: unminimized(m.pane), tasks: panel_hidden(m.tasks), mode: Mode::ProjectSearch, ..m }
}

/// The task pane drawn with the filter panel over it.
pub open spec fn panel_up(t: TaskModel) -> TaskModel {
    panel_shown(TaskModel { visible: true, ..t })
}

/// The session browsing the filter panel.
pub open spec fn filter_mode_of(m: AppModel) -> AppModel {
    let p = prepared(m);
    let t = panel_up(p.tasks);
    AppModel {
        tasks: if t.filter.editing { with_filter(t, fp::stopped(t.filter)) } else { t },
        mode: Mode::Filter,
        ..p
    }
}

/// The session typing into a filter row.
pub open spec fn filter_edit_mode_of(m: AppModel) -> AppModel {
    let p = prepared(m);
    let t = panel_up(p.tasks);
    AppModel {
        tasks: if t.filter.editing { t } else { with_filter(t, fp::start_editing_of(t.filter)) },
        mode: Mode::FilterEdit,
        ..p
    }
}

/// The session on the date picker.
pub open spec fn calendar_mode_of(m: AppModel) -> AppModel {
    let p = prepared(m);
    AppModel { tasks: panel_up(p.tasks), mode: Mode::Calendar, ..p }
}

/// The session driving the chart, which is drawn.
pub open spec fn gantt_mode_of(m: AppModel) -> AppModel {
    let p = prepared(m);
    let t = TaskModel { visible: true, gantt: GanttModel { visible: true, ..p.tasks.gantt }, ..p.tasks };
    AppModel { tasks: panel_hidden(t), mode: Mode::Gantt, ..p }
}

/// The session in the mode the open cell edit reads its keys in.
pub open spec fn task_edit_mode_of(m: AppModel) -> AppModel {
    AppModel {
        mode: if m.tasks.cell_edit matches Some(e) && e.editor is Date { Mode::Calendar } else { Mode::TaskEdit },
        ..m
    }
}

/// The session on the task table.
pub open spec fn task_mode_of(m: AppModel) -> AppModel {
    AppModel {
        projects: search_closed(m.projects),
        tasks: panel_hidden(TaskModel { visible: true, ..m.tasks }),
        mode: Mode::Task,
        ..m
    }
}

/// A character typed with no control or alt held.
pub open spec fn typed_char(key: KeyPress) -> Option<char> {
    match key.code {
        KeyCode::Char(c) => if key.modified() { None } else { Some(c) },
        _ => None,
    }
}

/// The project search with a character added.
pub open spec fn search_pushed(l: ListModel, ch: char) -> ListModel {
    rebuild(ListModel { query: l.query.push(ch), ..l }, cursor_id(l))
}

/// The project search with its last character gone.
pub open spec fn search_popped(l: ListModel) -> ListModel {
    rebuild(ListModel { query: if l.query.len() > 0 { l.query.drop_last() } else { l.query }, ..l }, cursor_id(l))
}

/// A key read while the project search is typed: the session after it, and
/// whether the search took the key.
pub open spec fn search_input_of(m: AppModel, key: KeyPress) -> (AppModel, bool) {
    match key.code {
        KeyCode::Esc => (project_mode_of(AppModel { projects: ListModel { search_active: false, ..m.projects }, ..m }), true),
        KeyCode::Enter => (project_mode_of(AppModel { projects: ListModel { search_active: false, ..m.projects }, ..m }), true),
        KeyCode::Backspace => (AppModel { projects: search_popped(m.projects), ..m }, true),
        KeyCode::Char(c) => if key.modified() { (m, false) } else {
            (AppModel { projects: search_pushed(m.projects, lower_char(c)), ..m }, true)
        },
        _ => (m, false),
    }
}

/// Whether a date picker is open, over a cell or over the filter panel.
pub open spec fn picker_open(t: TaskModel) -> bool {
    (t.cell_edit matches Some(e) && e.editor is Date) || t.filter.calendar is Some
}

/// The session with the task pane changed.
pub open spec fn with_tasks(m: AppModel, t: TaskModel) -> AppModel {
    AppModel { tasks: t, ..m }
}

/// A key read while the date picker is open: typed text goes into the
/// picker's query.
pub open spec fn calendar_input_of(m: AppModel, key: KeyPress) -> (AppModel, bool) {
    if !picker_open(m.tasks) {
        (m, false)
    } else {
        match key.code {
            KeyCode::Backspace => (with_tasks(m, calendar_stepped(m.tasks, CalendarStep::PopChar)), true),
            KeyCode::Char(c) => if key.modified() { (m, false) } else {
                (with_tasks(m, calendar_stepped(m.tasks, CalendarStep::PushChar(c))), true)
            },
            _ => (m, false),
        }
    }
}

/// A key read while a cell is edited as text.
pub open spec fn task_edit_input_of(m: AppModel, key: KeyPress) -> (AppModel, bool) {
    match m.tasks.cell_edit {
        Some(e) if !(e.editor is Options) => match key.code {
            KeyCode::Backspace => (with_tasks(m, with_cell_edit(m.tasks, |x: EditorView| text_edited(x, TextOp::DeleteBack))), true),
            KeyCode::Char(c) => if key.modified() { (m, false) } else {
                (with_tasks(m, with_cell_edit(m.tasks, |x: EditorView| text_edited(x, TextOp::Insert(c)))), true)
            },
            _ => (m, false),
        },
        _ => (m, false),
    }
}

/// Whether the filter cursor is on a labels row.
pub open spec fn on_labels(p: PanelView) -> bool {
    has_row(p) && row_of(p).kind == TaskFieldFilterKind::Labels
}

/// A key read while a filter row is typed into. `action` is what the key
/// is bound to, if anything: on a labels row the label actions act, on any
/// other row the key types.
pub open spec fn filter_input_of(m: AppModel, key: KeyPress, action: Option<Action>) -> (AppModel, bool) {
    let p = m.tasks.filter;
    if !p.editing {
        (m, false)
    } else if key.code == KeyCode::Backspace {
        (with_tasks(m, with_filter(m.tasks, marked(fp::pop_char_of(p)))), true)
    } else if on_labels(p) && action == Some(Action::FilterMoveLabelLeft) {
        (with_tasks(m, with_filter(m.tasks, fp::move_label_cursor_left_of(p))), true)
    } else if on_labels(p) && action == Some(Action::FilterMoveLabelRight) {
        (with_tasks(m, with_filter(m.tasks, fp::move_label_cursor_right_of(p))), true)
    } else if on_labels(p) && action == Some(Action::FilterCycleLabelDown) {
        (with_tasks(m, with_filter(m.tasks, marked(fp::cycle_selected_label_of(p, 1i32)))), true)
    } else if on_labels(p) && action == Some(Action::FilterCycleLabelUp) {
        (with_tasks(m, with_filter(m.tasks, marked(fp::cycle_selected_label_of(p, -1i32)))), true)
    } else if on_labels(p) && action == Some(Action::FilterAddLabel) {
        (with_tasks(m, with_filter(m.tasks, marked(fp::add_label_of(p)))), true)
    } else if on_labels(p) && action == Some(Action::FilterDeleteLabel) {
        (with_tasks(m, with_filter(m.tasks, marked(fp::delete_selected_label_of(p)))), true)
    } else {
        match typed_char(key) {
            Some(c) => (with_tasks(m, with_filter(m.tasks, marked(fp::push_char_of(p, c)))), true),
            None => (m, false),
        }
    }
}

/// The caret moved in whichever filter editor is active: the picker's,
/// then an open cell's, then the filter row's.
pub open spec fn filter_caret_moved(t: TaskModel, delta: i64) -> TaskModel {
    if picker_open(t) {
        calendar_stepped(t, CalendarStep::MoveCaret(delta))
    } else if t.cell_edit is Some {
        with_cell_edit(t, |x: EditorView| text_edited(x, TextOp::MoveCaret(delta)))
    } else {
        with_filter(t, fp::move_query_caret_of(t.filter, delta))
    }
}

/// A text motion run on the open cell if there is one, else on the filter row.
pub open spec fn text_moved(t: TaskModel, op: TextOp) -> TaskModel {
    if t.cell_edit is Some {
        with_cell_edit(t, |x: EditorView| text_edited(x, op))
    } else {
        with_filter(t, fp::edit_selected_text_of(t.filter, op))
    }
}

/// Whether two names are the same entry: equal once folded to ASCII lower
/// case, since the sidebar could not tell the two apart.
pub open spec fn same_name(a: Seq<char>, b: Seq<char>) -> bool {
    lower(a) == lower(b)
}

/// Whether an entry's name is the one looked for: exactly, or in either case.
pub open spec fn name_hit(n: Seq<char>, name: Seq<char>, exact: bool) -> bool {
    if exact { n == name } else { same_name(n, name) }
}

/// The first entry whose name is the one looked for, or -1.
pub open spec fn first_where(e: Seq<NamedView>, name: Seq<char>, exact: bool) -> int
    decreases e.len(),
{
    if e.len() == 0 {
        -1
    } else {
        let k = first_where(e.drop_last(), name, exact);
        if k >= 0 { k } else if name_hit(e.last().name, name, exact) { e.len() - 1 } else { -1 }
    }
}

/// The first entry with this name in either case, or -1.
pub open spec fn find_named(e: Seq<NamedView>, name: Seq<char>) -> int {
    first_where(e, name, false)
}

/// The first entry with exactly this name, or -1.
pub open spec fn find_exact(e: Seq<NamedView>, name: Seq<char>) -> int {
    first_where(e, name, true)
}

proof fn lemma_first_where_none(e: Seq<NamedView>, name: Seq<char>, exact: bool)
    requires
        forall|j: int| 0 <= j < e.len() ==> !name_hit(#[trigger] e[j].name, name, exact),
    ensures
        first_where(e, name, exact) == -1,
    decreases e.len(),
{
    if e.len() > 0 {
        assert forall|j: int| 0 <= j < e.drop_last().len() implies !name_hit(#[trigger] e.drop_last()[j].name, name, exact) by {
            assert(e.drop_last()[j] == e[j]);
        }
        lemma_first_where_none(e.drop_last(), name, exact);
        assert(!name_hit(e[e.len() - 1].name, name, exact));
    }
}

proof fn lemma_first_where_is(e: Seq<NamedView>, name: Seq<char>, exact: bool, i: int)
    requires
        0 <= i < e.len(),
        name_hit(e[i].name, name, exact),
        forall|j: int| 0 <= j < i ==> !name_hit(#[trigger] e[j].name, name, exact),
    ensures
        first_where(e, name, exact) == i,
    decreases e.len(),
{
    let d = e.drop_last();
    if i == e.len() - 1 {
        assert forall|j: int| 0 <= j < d.len() implies !name_hit(#[trigger] d[j].name, name, exact) by {
            assert(d[j] == e[j]);
        }
        lemma_first_where_none(d, name, exact);
    } else {
        assert(d[i] == e[i]);
        assert forall|j: int| 0 <= j < i implies !name_hit(#[trigger] d[j].name, name, exact) by {
            assert(d[j] == e[j]);
        }
        lemma_first_where_is(d, name, exact, i);
    }
}

/// Whether two saved rows hold the same values.
fn same_saved_field(a: &SavedFilterField, b: &SavedFilterField) -> (r: bool)
    ensures
        r == (a@ == b@),
{
    let modes = match (&a.string_mode, &b.string_mode) {
        (Some(x), Some(y)) => *x == *y,
        (None, None) => true,
        _ => false,
    };
    a.key == b.key && a.query == b.query && modes && a.empty == b.empty && a.negated == b.negated
}

/// Whether two saved panels hold the same sets.
fn same_saved_sets(a: &Vec<SavedFilterSet>, b: &Vec<SavedFilterSet>) -> (r: bool)
    ensures
        r == (fp::saved_sets_view(a@) == fp::saved_sets_view(b@)),
{
    if a.len() != b.len() {
        assert(fp::saved_sets_view(a@).len() != fp::saved_sets_view(b@).len());
        return false;
    }
    let mut i: usize = 0;
    while i < a.len()
        invariant
            a.len() == b.len(),
            i <= a.len(),
            forall|k: int| 0 <= k < i ==> fp::saved_set_view(#[trigger] a@[k]) == fp::saved_set_view(b@[k]),
        decreases a.len() - i,
    {
        let x = &a[i];
        let y = &b[i];
        assert(fp::saved_sets_view(a@)[i as int] == fp::saved_set_view(a@[i as int]));
        assert(fp::saved_sets_view(b@)[i as int] == fp::saved_set_view(b@[i as int]));
        if x.negated != y.negated || x.fields.len() != y.fields.len() {
            assert(crate::filter::saved_view(x.fields@).len() == x.fields.len());
            assert(crate::filter::saved_view(y.fields@).len() == y.fields.len());
            assert(fp::saved_sets_view(a@)[i as int] != fp::saved_sets_view(b@)[i as int]);
            return false;
        }
        let mut j: usize = 0;
        while j < x.fields.len()
            invariant
                i < a.len() == b.len(),
                *x == a@[i as int],
                *y == b@[i as int],
                fp::saved_sets_view(a@)[i as int] == fp::saved_set_view(a@[i as int]),
                fp::saved_sets_view(b@)[i as int] == fp::saved_set_view(b@[i as int]),
                x.fields.len() == y.fields.len(),
                j <= x.fields.len(),
                forall|k: int| 0 <= k < j ==> (#[trigger] x.fields@[k])@ == y.fields@[k]@,
            decreases x.fields.len() - j,
        {
            if !same_saved_field(&x.fields[j], &y.fields[j]) {
                assert(crate::filter::saved_view(x.fields@)[j as int] != crate::filter::saved_view(y.fields@)[j as int]);
                assert(fp::saved_sets_view(a@)[i as int] != fp::saved_sets_view(b@)[i as int]);
                return false;
            }
            j += 1;
        }
        assert(crate::filter::saved_view(x.fields@) =~= crate::filter::saved_view(y.fields@));
        i += 1;
    }
    assert(fp::saved_sets_view(a@) =~= fp::saved_sets_view(b@));
    true
}

/// Where entry `i` stands in the sidebar.
fn rank_of(e: &Vec<NamedFilterSet>, i: usize) -> (r: usize)
    requires
        i < e.len(),
    ensures
        r == rank(named_view(e@), i as int),
{
    let ghost v = named_view(e@);
    let mut count: usize = 0;
    let mut j: usize = 0;
    while j < e.len()
        invariant
            i < e.len(),
            j <= e.len(),
            v == named_view(e@),
            count == rank_upto(v, i as int, j as int),
            count <= j,
        decreases e.len() - j,
    {
        let before = str_less(e[j].name.as_str(), e[i].name.as_str()) || (e[j].name == e[i].name && j < i);
        assert(before == sorts_before(v, j as int, i as int));
        if before {
            count += 1;
        }
        j += 1;
    }
    count
}

/// The entries without any named `name` in either case, in their order.
fn kept_entries(entries: Vec<NamedFilterSet>, name: &str) -> (r: Vec<NamedFilterSet>)
    ensures
        named_view(r@) == kept(named_view(entries@), name@),
{
    let ghost orig = named_view(entries@);
    let mut rest = entries;
    let mut out: Vec<NamedFilterSet> = Vec::new();
    let ghost mut k: int = 0;
    assert(orig.take(0) =~= Seq::<NamedView>::empty());
    assert(named_view(out@) =~= Seq::<NamedView>::empty());
    assert(named_view(rest@) =~= orig.skip(0));
    while rest.len() > 0
        invariant
            0 <= k <= orig.len(),
            k + rest@.len() == orig.len(),
            named_view(rest@) == orig.skip(k),
            named_view(out@) == kept(orig.take(k), name@),
        decreases rest@.len(),
    {
        let ghost before = rest@;
        let entry = rest.remove(0);
        proof {
            assert(orig.skip(k)[0] == orig[k]);
            assert(named_view(before)[0] == orig[k]);
            assert forall|j: int| 0 <= j < rest@.len() implies #[trigger] named_view(rest@)[j] == orig.skip(k + 1)[j] by {
                assert(rest@[j] == before[j + 1]);
                assert(named_view(before)[j + 1] == orig.skip(k)[j + 1]);
            }
            assert(named_view(rest@) =~= orig.skip(k + 1));
            assert(orig.take(k + 1).drop_last() =~= orig.take(k));
            assert(orig.take(k + 1).last() == orig[k]);
        }
        if !names_match(entry.name.as_str(), name, false) {
            out.push(entry);
            proof { assert(named_view(out@) =~= kept(orig.take(k), name@).push(orig[k])); }
        }
        proof { k = k + 1; }
    }
    assert(orig.take(k) =~= orig);
    out
}

/// The panel as saved, from what `filter_sets_to_saved` hands back.
proof fn lemma_saved_form(r: Seq<SavedFilterSet>, p: PanelView)
    requires
        r.len() == p.sets.len(),
        forall|i: int| 0 <= i < r.len() ==> (#[trigger] r[i]).negated == p.sets[i].negated
            && crate::filter::saved_view(r[i].fields@) == saved_rows(p.sets[i].fields) + p.sets[i].unresolved,
    ensures
        fp::saved_sets_view(r) == saved_form(p),
{
    assert(fp::saved_sets_view(r) =~= saved_form(p));
}

/// No more entries are kept than there were.
proof fn lemma_kept_len(e: Seq<NamedView>, name: Seq<char>)
    ensures
        kept(e, name).len() <= e.len(),
    decreases e.len(),
{
    if e.len() > 0 {
        lemma_kept_len(e.drop_last(), name);
    }
}

/// A paged window starts within the entries, or at 0.
proof fn lemma_page_bound(p: PanelView, delta: i32, total: usize)
    requires
        0 <= p.sidebar_page_start,
        total <= MAX_SAVED_ENTRIES,
    ensures
        0 <= fp::page_sidebar_of(p, delta, total).sidebar_page_start <= MAX_SAVED_ENTRIES,
{
    let w = fp::window_of(p);
    if total > w {
        let last = (total - 1) / w * w;
        assert(0 <= last <= total - 1) by (nonlinear_arith)
            requires w >= 1, total > w, last == (total - 1) / w * w;
    }
}

proof fn lemma_at_rank_stays(e: Seq<NamedView>, place: int, n: int, m: int)
    requires
        0 <= n <= m,
        at_rank_upto(e, place, n) >= 0,
    ensures
        at_rank_upto(e, place, m) == at_rank_upto(e, place, n),
    decreases m - n,
{
    if m > n {
        lemma_at_rank_stays(e, place, n, m - 1);
    }
}

/// The entry at this place in the sidebar's order.
fn entry_at_rank(e: &Vec<NamedFilterSet>, place: usize) -> (r: Option<usize>)
    ensures
        match r {
            Some(i) => i < e.len() && i == at_rank(named_view(e@), place as int),
            None => at_rank(named_view(e@), place as int) == -1,
        },
{
    let ghost v = named_view(e@);
    let mut i: usize = 0;
    while i < e.len()
        invariant
            i <= e.len(),
            v == named_view(e@),
            at_rank_upto(v, place as int, i as int) == -1,
        decreases e.len() - i,
    {
        if rank_of(e, i) == place {
            proof { lemma_at_rank_stays(v, place as int, i + 1, v.len() as int); }
            return Some(i);
        }
        i += 1;
    }
    None
}

fn is_filter(a: &Action) -> (r: bool)
    ensures
        r == is_filter_action(*a),
{
    match a {
        Action::BeginFilterEdit | Action::CalendarCommit | Action::CalendarClose | Action::CalendarClear
        | Action::FilterCaretLeft | Action::FilterCaretRight | Action::CalendarJumpToStart
        | Action::CalendarJumpToEnd | Action::CalendarPrevDay | Action::CalendarNextDay
        | Action::CalendarPrevMonth | Action::CalendarNextMonth | Action::CalendarToday
        | Action::FilterDoneEditing | Action::FilterCancelEditing => true,
        _ => false,
    }
}

fn is_set(a: &Action) -> (r: bool)
    ensures
        r == is_set_action(*a),
{
    match a {
        Action::FilterSetsToggle | Action::FilterSetsPageBack | Action::FilterSetsPageForward
        | Action::FilterSetLoad(_) | Action::FilterSetSave | Action::FilterSetDelete
        | Action::FilterSetCopyToNew | Action::FilterSetNew => true,
        _ => false,
    }
}

fn is_mode(a: &Action) -> (r: bool)
    ensures
        r == is_mode_action(*a),
{
    match a {
        Action::SetProjectMode | Action::SetFilterMode | Action::SetTaskMode | Action::SetGanttMode
        | Action::ToggleGantt | Action::ToggleTaskMode | Action::ToggleTaskFilters
        | Action::ResizeTopPaneUp | Action::ResizeTopPaneDown | Action::MinimizeTopPane
        | Action::MaximizeTopPane | Action::RestoreTopPane => true,
        _ => false,
    }
}

fn is_edit(a: &Action) -> (r: bool)
    ensures
        r == is_edit_action(*a),
{
    match a {
        Action::GanttZoomFit | Action::GanttOrderMoveUp | Action::GanttOrderMoveDown
        | Action::GanttOrderMoveTop | Action::GanttOrderMoveBottom | Action::GanttOrderCommit
        | Action::GanttOrderCancel | Action::GanttOpenOrder | Action::GanttAddColumn
        | Action::GanttRemoveColumn | Action::GanttScrollLeft | Action::GanttScrollRight
        | Action::GanttZoomIn | Action::GanttZoomOut | Action::GanttToday | Action::CancelTaskEdit
        | Action::TaskEditCycleValue(_) | Action::TaskEditClear | Action::TextCaretWordBack
        | Action::TextCaretWordForward | Action::TextCaretStart | Action::TextCaretEnd => true,
        _ => false,
    }
}

proof fn lemma_first_where_found(e: Seq<NamedView>, name: Seq<char>, exact: bool)
    ensures
        -1 <= first_where(e, name, exact) < e.len(),
        first_where(e, name, exact) >= 0 ==> name_hit(e[first_where(e, name, exact)].name, name, exact),
        first_where(e, name, exact) == -1 ==> forall|i: int| 0 <= i < e.len() ==> !name_hit(#[trigger] e[i].name, name, exact),
    decreases e.len(),
{
    if e.len() > 0 {
        let d = e.drop_last();
        lemma_first_where_found(d, name, exact);
        let k = first_where(d, name, exact);
        if k >= 0 {
            assert(e[k] == d[k]);
        } else {
            assert forall|i: int| 0 <= i < e.len() - 1 implies !name_hit(#[trigger] e[i].name, name, exact) by {
                assert(e[i] == d[i]);
            }
        }
    }
}

/// No two entries are the same entry.
pub open spec fn distinct_names(e: Seq<NamedView>) -> bool {
    forall|i: int, j: int| 0 <= i < j < e.len() ==> !same_name(#[trigger] e[i].name, #[trigger] e[j].name)
}

/// Saving under a name never leaves two entries that are the same entry:
/// a name already saved, in either case, is saved over; the entry saved is
/// there afterwards, and at most one entry is added.
pub proof fn lemma_saving_keeps_one_entry_per_name(e: Seq<NamedView>, name: Seq<char>, sets: Seq<(bool, Seq<SavedView>)>)
    requires
        distinct_names(e),
    ensures
        distinct_names(saved_into(e, name, sets)),
        saved_into(e, name, sets).contains(NamedView { name, sets }),
        e.len() <= saved_into(e, name, sets).len() <= e.len() + 1,
{
    lemma_first_where_found(e, name, false);
    let k = find_named(e, name);
    let r = saved_into(e, name, sets);
    if k >= 0 {
        assert(r[k] == NamedView { name, sets });
        assert forall|i: int, j: int| 0 <= i < j < r.len() implies !same_name(#[trigger] r[i].name, #[trigger] r[j].name) by {
            if i != k && j != k {
                assert(r[i] == e[i] && r[j] == e[j]);
            } else if i == k {
                assert(r[j] == e[j]);
                assert(!same_name(e[k].name, e[j].name));
            } else {
                assert(r[i] == e[i]);
                assert(!same_name(e[i].name, e[k].name));
            }
        }
    } else {
        assert(r[e.len() as int] == NamedView { name, sets });
        assert forall|i: int, j: int| 0 <= i < j < r.len() implies !same_name(#[trigger] r[i].name, #[trigger] r[j].name) by {
            assert(r[i] == e[i]);
            if j < e.len() {
                assert(r[j] == e[j]);
            } else {
                assert(!name_hit(e[i].name, name, false));
            }
        }
    }
}

/// After a delete, no entry is the one that was loaded.
pub proof fn lemma_deleting_leaves_no_entry_by_that_name(e: Seq<NamedView>, name: Seq<char>)
    ensures
        forall|i: int| 0 <= i < kept(e, name).len() ==> !same_name(#[trigger] kept(e, name)[i].name, name),
        forall|i: int| 0 <= i < e.len() && !same_name(e[i].name, name) ==> kept(e, name).contains(#[trigger] e[i]),
    decreases e.len(),
{
    if e.len() > 0 {
        let d = e.drop_last();
        lemma_deleting_leaves_no_entry_by_that_name(d, name);
        assert forall|i: int| 0 <= i < e.len() && !same_name(e[i].name, name) implies kept(e, name).contains(#[trigger] e[i]) by {
            if i < e.len() - 1 {
                assert(e[i] == d[i]);
                let w = choose|w: int| 0 <= w < kept(d, name).len() && kept(d, name)[w] == d[i];
                if !same_name(e.last().name, name) {
                    assert(kept(e, name)[w] == kept(d, name)[w]);
                }
            } else {
                assert(kept(e, name)[kept(d, name).len() as int] == e[i]);
            }
        }
    }
}

/// Switching to project mode or to filter mode brings a minimised top
/// pane back, since both modes live in it.
pub proof fn lemma_switching_mode_restores_a_minimized_pane(m: AppModel, a: Action, today: (int, int, int))
    requires
        a is SetProjectMode || a is SetFilterMode,
    ensures
        action_of(m, a, today).0.pane.mode != PaneMode::Minimized,
        action_of(m, a, today).0.mode == (if a is SetProjectMode { Mode::Project } else { Mode::Filter }),
{
}

/// Minimising twice, or maximising twice, gives back the pane as it was.
pub proof fn lemma_toggling_the_pane_twice_restores_it(m: AppModel, a: Action, t1: (int, int, int), t2: (int, int, int))
    requires
        crate::pane::pane_wf(m.pane),
        m.pane.mode == PaneMode::Normal,
        a is MinimizeTopPane || a is MaximizeTopPane,
    ensures
        action_of(action_of(m, a, t1).0, a, t2).0.pane == m.pane,
        action_of(m, a, t1).0.pane.mode == (if a is MinimizeTopPane { PaneMode::Minimized } else { PaneMode::Maximized }),
{
}

/// A digit over an unnamed panel that filters loads nothing: the panel
/// keeps every set and asks first.
pub proof fn lemma_a_digit_never_throws_away_unsaved_work(m: AppModel, position: u8, today: (int, int, int))
    requires
        fp::unsaved(m.tasks.filter),
    ensures
        action_of(m, Action::FilterSetLoad(position), today).0.tasks.filter.sets == m.tasks.filter.sets,
        action_of(m, Action::FilterSetLoad(position), today).0.filter_sets == m.filter_sets,
        at_rank(m.filter_sets, digit_place(m.tasks.filter, position)) >= 0 ==>
            action_of(m, Action::FilterSetLoad(position), today).0.mode == Mode::FilterSetName,
{
}

/// While the colour dialog is open in its mode, the cursor keys move the
/// dialog's cursor and leave the task table alone.
pub proof fn lemma_the_dialog_takes_the_cursor_keys(m: AppModel, a: Action, today: (int, int, int))
    requires
        m.mode == Mode::GanttOrder,
        a is MoveUp || a is MoveDown,
    ensures
        !action_of(m, a, today).2.for_task_table,
        action_of(m, a, today).0 == with_gantt(m, cursor_move_of(m.tasks.gantt, if a is MoveUp { -1 } else { 1 })),
{
}

/// Turning the chart off takes gantt mode with it; turning it on keeps
/// the mode the keys were in.
pub proof fn lemma_hiding_the_chart_leaves_gantt_mode(m: AppModel, today: (int, int, int))
    ensures
        m.tasks.gantt.visible ==> action_of(m, Action::ToggleGantt, today).0.mode == Mode::Task
            && !action_of(m, Action::ToggleGantt, today).0.tasks.gantt.visible,
        !m.tasks.gantt.visible ==> action_of(m, Action::ToggleGantt, today).0.mode == m.mode
            && action_of(m, Action::ToggleGantt, today).0.tasks.gantt.visible,
{
}

/// Showing or hiding the sidebar keeps the filter cursor where it is.
pub proof fn lemma_the_sidebar_leaves_the_field_cursor(m: AppModel, today: (int, int, int))
    ensures
        action_of(m, Action::FilterSetsToggle, today).0.tasks.filter.selected == m.tasks.filter.selected,
        action_of(m, Action::FilterSetsToggle, today).0.tasks.filter.sidebar_visible == !m.tasks.filter.sidebar_visible,
{
}

/// Appends `n` in decimal.
pub fn push_decimal(s: &mut String, n: usize)
    ensures
        final(s)@ == old(s)@ + decimal(n as nat),
    decreases n,
{
    if n >= 10 {
        push_decimal(s, n / 10);
    }
    let d = (n % 10) as u32;
    push_char(s, crate::date::digit_to_char(d));
    proof {
        if n < 10 {
            assert(decimal(n as nat) =~= seq![crate::date::digit_char(n as int)]);
        }
    }
}

/// A burst of task writes is reported once: a reply while others are
/// still out changes no report, and the last one leaves the tally empty
/// for the next burst.
pub proof fn lemma_a_burst_is_reported_once(m: AppModel, error: Option<Seq<char>>)
    ensures
        m.edits.outstanding > 1 ==> edit_reply_of(m, error).tasks == m.tasks,
        m.edits.outstanding <= 1 ==> edit_reply_of(m, error).edits == (EditTally { sent: 0, outstanding: 0, failures: 0, error: None }),
        m.edits.outstanding <= 1 && m.edits.failures == 0 && error is None ==> edit_reply_of(m, error).tasks == m.tasks,
{
}

/// Whether one of the ids is this one.
fn holds_id(ids: &[String], id: &String) -> (r: bool)
    ensures
        r == strings_view(ids@).contains(id@),
{
    let mut i: usize = 0;
    while i < ids.len()
        invariant
            i <= ids.len(),
            forall|j: int| 0 <= j < i ==> strings_view(ids@)[j] != id@,
        decreases ids.len() - i,
    {
        if ids[i] == *id {
            assert(strings_view(ids@)[i as int] == id@);
            return true;
        }
        i += 1;
    }
    false
}

/// Whether two names are the same entry.
fn names_match(a: &str, b: &str, exact: bool) -> (r: bool)
    ensures
        r == name_hit(a@, b@, exact),
{
    if exact {
        eq_chars(&chars_of(a), &chars_of(b))
    } else {
        eq_chars(&lower_chars(&chars_of(a)), &lower_chars(&chars_of(b)))
    }
}

/// The first entry whose name is the one looked for.
fn find_entry(e: &Vec<NamedFilterSet>, name: &str, exact: bool) -> (r: Option<usize>)
    ensures
        match r {
            Some(i) => i < e.len() && i == first_where(named_view(e@), name@, exact),
            None => first_where(named_view(e@), name@, exact) == -1,
        },
{
    let ghost v = named_view(e@);
    let mut i: usize = 0;
    while i < e.len()
        invariant
            i <= e.len(),
            v == named_view(e@),
            forall|j: int| 0 <= j < i ==> !name_hit(#[trigger] v[j].name, name@, exact),
        decreases e.len() - i,
    {
        if names_match(e[i].name.as_str(), name, exact) {
            proof { lemma_first_where_is(v, name@, exact, i as int); }
            return Some(i);
        }
        i += 1;
    }
    proof { lemma_first_where_none(v, name@, exact); }
    None
}

/// The entries with one saved under `name`: over the first entry with the
/// same name in either case, else at the end.
pub open spec fn saved_into(e: Seq<NamedView>, name: Seq<char>, sets: Seq<(bool, Seq<SavedView>)>) -> Seq<NamedView> {
    let k = find_named(e, name);
    if k >= 0 { e.update(k, NamedView { name, sets }) } else { e.push(NamedView { name, sets }) }
}

/// The entries without any named `name` in either case.
pub open spec fn kept(e: Seq<NamedView>, name: Seq<char>) -> Seq<NamedView>
    decreases e.len(),
{
    if e.len() == 0 {
        e
    } else {
        let rest = kept(e.drop_last(), name);
        if same_name(e.last().name, name) { rest } else { rest.push(e.last()) }
    }
}

/// The panel as it is saved: each set's negation, and its rows' values
/// followed by whatever it holds parked.
pub open spec fn saved_form(p: PanelView) -> Seq<(bool, Seq<SavedView>)> {
    p.sets.map_values(|s: SetView| (s.negated, saved_rows(s.fields) + s.unresolved))
}

/// Whether entry `j` comes before entry `i` in the sidebar: by name, and
/// by where it was written among equal names.
pub open spec fn sorts_before(e: Seq<NamedView>, j: int, i: int) -> bool {
    chars_lt(e[j].name, e[i].name) || (e[j].name == e[i].name && j < i)
}

/// How many of the first `k` entries come before entry `i`.
pub open spec fn rank_upto(e: Seq<NamedView>, i: int, k: int) -> nat
    decreases k,
{
    if k <= 0 { 0 } else { rank_upto(e, i, k - 1) + if sorts_before(e, k - 1, i) { 1nat } else { 0nat } }
}

/// Where entry `i` stands in the sidebar, counting from 0.
pub open spec fn rank(e: Seq<NamedView>, i: int) -> nat {
    rank_upto(e, i, e.len() as int)
}

/// The text at the save prompt, or nothing.
pub open spec fn prompt_text(p: PanelView) -> Seq<char> {
    match p.prompt {
        Some(fp::PromptView::Save { text, .. }) => text,
        _ => Seq::empty(),
    }
}

/// The panel with its prompt closed.
pub open spec fn prompt_closed(t: TaskModel) -> TaskModel {
    with_filter(t, PanelView { prompt: None, ..t.filter })
}

/// A report on the sidebar, which opens so it can be seen.
pub open spec fn noticed(t: TaskModel, message: Seq<char>) -> TaskModel {
    TaskModel { filter: PanelView { sidebar_visible: true, notice: Some(message), ..t.filter }, ..t }
}

/// `w` committed: the panel saved under the trimmed name and bound to it,
/// or, for an empty name, a report with the prompt left open.
pub open spec fn save_of(m: AppModel) -> (AppModel, Effects) {
    let name = trim(prompt_text(m.tasks.filter));
    if name.len() == 0 {
        (with_tasks(m, noticed(m.tasks, "a name is required"@)), no_effects())
    } else {
        let t = prompt_closed(m.tasks);
        let bound = with_filter(t, PanelView { loaded: Some(name), dirty: false, ..t.filter });
        (
            filter_mode_of(AppModel {
                filter_sets: saved_into(m.filter_sets, name, saved_form(m.tasks.filter)),
                tasks: bound,
                ..m
            }),
            fx(true, false),
        )
    }
}

/// `y` at a delete confirmation: the loaded entry goes, the panel is
/// detached and the numbered window held to the entries left.
pub open spec fn delete_of(m: AppModel) -> AppModel {
    let e = match m.tasks.filter.loaded { Some(n) => kept(m.filter_sets, n), None => m.filter_sets };
    let t = prompt_closed(m.tasks);
    let detached = with_filter(t, PanelView { loaded: None, dirty: false, ..t.filter });
    filter_mode_of(AppModel {
        filter_sets: e,
        tasks: with_filter(detached, fp::page_sidebar_of(detached.filter, 0, e.len() as usize)),
        ..m
    })
}

/// The bound panel written back to its entry. Nothing is written unless
/// the panel is bound, marked changed, and differs from the entry.
pub open spec fn sync_of(m: AppModel) -> (AppModel, bool) {
    if !m.tasks.filter.dirty {
        (m, false)
    } else {
        let m1 = with_tasks(m, with_filter(m.tasks, PanelView { dirty: false, ..m.tasks.filter }));
        match m.tasks.filter.loaded {
            None => (m1, false),
            Some(n) => {
                let k = find_named(m.filter_sets, n);
                let sets = saved_form(m.tasks.filter);
                if k < 0 || m.filter_sets[k].sets == sets {
                    (m1, false)
                } else {
                    (AppModel { filter_sets: m.filter_sets.update(k, NamedView { sets, ..m.filter_sets[k] }), ..m1 }, true)
                }
            },
        }
    }
}

/// The panel replaced with the entry of exactly this name, after anything
/// the bound panel still held is written back.
pub open spec fn load_named_of(m: AppModel, name: Seq<char>) -> (AppModel, bool) {
    let (m1, write) = sync_of(m);
    let k = find_exact(m1.filter_sets, name);
    if k < 0 {
        (m1, write)
    } else {
        let t = m1.tasks;
        (with_tasks(m1, with_filter(t, PanelView {
            loaded: Some(m1.filter_sets[k].name),
            dirty: false,
            notice: None,
            ..fp::apply_saved_of(t.filter, m1.filter_sets[k].sets)
        })), write)
    }
}

/// `y` at a load confirmation: the unnamed panel goes for the entry.
pub open spec fn confirm_load_of(m: AppModel, name: Seq<char>) -> (AppModel, Effects) {
    let m1 = filter_mode_of(with_tasks(m, prompt_closed(m.tasks)));
    let (m2, write) = load_named_of(m1, name);
    (m2, fx(write, true))
}

/// A key read at the save prompt.
pub open spec fn save_input_of(m: AppModel, key: KeyPress) -> (AppModel, bool, Effects) {
    let t = m.tasks;
    let p = t.filter;
    match key.code {
        KeyCode::Enter => (save_of(m).0, true, save_of(m).1),
        KeyCode::Esc => (filter_mode_of(with_tasks(m, prompt_closed(t))), true, no_effects()),
        KeyCode::Backspace => (with_tasks(m, with_filter(t, fp::prompt_pop_char_of(p))), true, no_effects()),
        KeyCode::Left => (with_tasks(m, with_filter(t, fp::prompt_move_caret_of(p, -1i64))), true, no_effects()),
        KeyCode::Right => (with_tasks(m, with_filter(t, fp::prompt_move_caret_of(p, 1i64))), true, no_effects()),
        KeyCode::Char(c) => if key.modified() { (m, false, no_effects()) } else {
            (with_tasks(m, with_filter(t, fp::prompt_push_char_of(p, c))), true, no_effects())
        },
        _ => (m, false, no_effects()),
    }
}

/// A key read at a confirmation: `y` goes through with the load of `load`,
/// or with the delete when there is none; `n` or escape backs out.
pub open spec fn confirm_input_of(m: AppModel, key: KeyPress, load: Option<Seq<char>>) -> (AppModel, bool, Effects) {
    let c = typed_char(key);
    if c == Some('y') || c == Some('Y') {
        match load {
            Some(name) => (confirm_load_of(m, name).0, true, confirm_load_of(m, name).1),
            None => (delete_of(m), true, fx(true, false)),
        }
    } else if c == Some('n') || c == Some('N') || key.code == KeyCode::Esc {
        (filter_mode_of(with_tasks(m, prompt_closed(m.tasks))), true, no_effects())
    } else {
        (m, false, no_effects())
    }
}

/// A key read while the sidebar's prompt is open: the session after it,
/// whether the prompt took the key, and what is left to do.
pub open spec fn name_input_of(m: AppModel, key: KeyPress) -> (AppModel, bool, Effects) {
    match m.tasks.filter.prompt {
        None => (filter_mode_of(m), false, no_effects()),
        Some(fp::PromptView::Save { .. }) => save_input_of(m, key),
        Some(fp::PromptView::ConfirmDelete { .. }) => confirm_input_of(m, key, None),
        Some(fp::PromptView::ConfirmLoad { name }) => confirm_input_of(m, key, Some(name)),
    }
}

/// Only the task table has work to do.
pub open spec fn table_fx(check_task_data: bool) -> Effects {
    Effects { for_task_table: true, ..fx(false, check_task_data) }
}

/// Whether the open cell edit is a date, picked on the calendar.
pub open spec fn cell_picker(t: TaskModel) -> bool {
    t.cell_edit matches Some(e) && e.editor is Date
}

/// The session with a calendar step taken.
pub open spec fn stepped(m: AppModel, step: CalendarStep) -> AppModel {
    with_tasks(m, calendar_stepped(m.tasks, step))
}

/// The filter panel with its picker closed.
pub open spec fn picker_closed(t: TaskModel) -> TaskModel {
    with_filter(t, PanelView { calendar: None, ..t.filter })
}

/// The filter panel with its picker closed and its edit ended.
pub open spec fn edit_ended(t: TaskModel) -> TaskModel {
    let c = picker_closed(t);
    with_filter(c, fp::stopped(c.filter))
}

/// Whether an action edits a filter row or drives the filter picker.
pub open spec fn is_filter_action(a: Action) -> bool {
    a is BeginFilterEdit || a is CalendarCommit || a is CalendarClose || a is CalendarClear
        || a is FilterCaretLeft || a is FilterCaretRight || a is CalendarJumpToStart || a is CalendarJumpToEnd
        || a is CalendarPrevDay || a is CalendarNextDay || a is CalendarPrevMonth || a is CalendarNextMonth
        || a is CalendarToday || a is FilterDoneEditing || a is FilterCancelEditing
}

/// A filter-editing action carried out; `today` is the date a picker
/// opens on.
pub open spec fn filter_action_of(m: AppModel, a: Action, today: (int, int, int)) -> (AppModel, Effects) {
    let t = m.tasks;
    let p = t.filter;
    match a {
        Action::BeginFilterEdit => if has_row(p) && row_of(p).kind == TaskFieldFilterKind::Date {
            (calendar_mode_of(with_tasks(m, calendar_begun(t, today))), no_effects())
        } else {
            (filter_edit_mode_of(with_tasks(m, with_filter(t, fp::start_editing_of(p)))), no_effects())
        },
        Action::CalendarCommit => if cell_picker(t) {
            (stepped(m, CalendarStep::Normalize), table_fx(false))
        } else {
            (filter_mode_of(with_tasks(m, calendar_committed(t))), fx(false, true))
        },
        Action::CalendarClose => if cell_picker(t) {
            (task_mode_of(with_tasks(m, TaskModel { cell_edit: None, ..t })), no_effects())
        } else {
            (filter_mode_of(with_tasks(m, picker_closed(t))), fx(false, true))
        },
        Action::CalendarClear => if cell_picker(t) {
            (stepped(m, CalendarStep::Clear), no_effects())
        } else {
            (filter_mode_of(with_tasks(m, with_filter(t, marked(fp::clear_current_of(PanelView { calendar: None, ..p }))))), fx(false, true))
        },
        Action::FilterCaretLeft => (with_tasks(m, filter_caret_moved(t, -1i64)), no_effects()),
        Action::FilterCaretRight => (with_tasks(m, filter_caret_moved(t, 1i64)), no_effects()),
        Action::CalendarJumpToStart => (stepped(m, CalendarStep::JumpToStart), no_effects()),
        Action::CalendarJumpToEnd => (stepped(m, CalendarStep::JumpToEnd), no_effects()),
        Action::CalendarPrevDay => (stepped(m, CalendarStep::MoveDays(-1i64)), no_effects()),
        Action::CalendarNextDay => (stepped(m, CalendarStep::MoveDays(1i64)), no_effects()),
        Action::CalendarPrevMonth => (stepped(m, CalendarStep::MoveMonths(-1i64)), no_effects()),
        Action::CalendarNextMonth => (stepped(m, CalendarStep::MoveMonths(1i64)), no_effects()),
        Action::CalendarToday => (stepped(m, CalendarStep::Today), no_effects()),
        Action::FilterDoneEditing => (filter_mode_of(with_tasks(m, edit_ended(t))), fx(false, true)),
        Action::FilterCancelEditing => (task_mode_of(with_tasks(m, toggled_panel(edit_ended(t)))), no_effects()),
        _ => (m, no_effects()),
    }
}

/// The first entry at this place in the sidebar's order, looking at the
/// first `n`, or -1.
pub open spec fn at_rank_upto(e: Seq<NamedView>, place: int, n: int) -> int
    decreases n,
{
    if n <= 0 {
        -1
    } else {
        let k = at_rank_upto(e, place, n - 1);
        if k >= 0 { k } else if rank(e, n - 1) == place { n - 1 } else { -1 }
    }
}

/// The entry at this place in the sidebar's order, or -1.
pub open spec fn at_rank(e: Seq<NamedView>, place: int) -> int {
    at_rank_upto(e, place, e.len() as int)
}

/// The place in the sidebar's order that a digit addresses: its place in
/// the numbered window, counting from 1.
pub open spec fn digit_place(p: PanelView, position: u8) -> int {
    p.sidebar_page_start + if position > 0 { position - 1 } else { 0 }
}

/// The session with the numbered window held to the entries.
pub open spec fn page_clamped(m: AppModel) -> AppModel {
    with_tasks(m, with_filter(m.tasks, fp::page_sidebar_of(m.tasks.filter, 0, m.filter_sets.len() as usize)))
}

/// A fresh panel, bound to nothing.
pub open spec fn fresh_panel(t: TaskModel) -> TaskModel {
    with_filter(t, fp::stopped(PanelView {
        sets: seq![fp::reset_set(t.filter)],
        active: 0,
        selected: 0,
        loaded: None,
        dirty: false,
        ..t.filter
    }))
}

/// Whether an action works the sidebar of saved entries.
pub open spec fn is_set_action(a: Action) -> bool {
    a is FilterSetsToggle || a is FilterSetsPageBack || a is FilterSetsPageForward || a is FilterSetLoad
        || a is FilterSetSave || a is FilterSetDelete || a is FilterSetCopyToNew || a is FilterSetNew
}

/// A sidebar action carried out.
pub open spec fn set_action_of(m: AppModel, a: Action) -> (AppModel, Effects) {
    let t = m.tasks;
    let p = t.filter;
    let total = m.filter_sets.len() as usize;
    match a {
        Action::FilterSetsToggle => (page_clamped(with_tasks(m, with_filter(t, fp::toggle_sidebar_of(p)))), no_effects()),
        Action::FilterSetsPageBack => (with_tasks(m, with_filter(t, fp::page_sidebar_of(p, -1i32, total))), no_effects()),
        Action::FilterSetsPageForward => (with_tasks(m, with_filter(t, fp::page_sidebar_of(p, 1i32, total))), no_effects()),
        Action::FilterSetLoad(position) => {
            let i = at_rank(m.filter_sets, digit_place(p, position));
            if i < 0 {
                (m, no_effects())
            } else if fp::unsaved(p) {
                // An unnamed panel that filters exists nowhere else: ask first.
                (AppModel {
                    tasks: with_filter(t, fp::prompt_confirm_load_of(p, m.filter_sets[i].name)),
                    mode: Mode::FilterSetName,
                    ..m
                }, no_effects())
            } else {
                (load_named_of(m, m.filter_sets[i].name).0, fx(load_named_of(m, m.filter_sets[i].name).1, true))
            }
        },
        Action::FilterSetSave => (AppModel { tasks: with_filter(t, fp::prompt_save_of(p)), mode: Mode::FilterSetName, ..m }, no_effects()),
        Action::FilterSetDelete => match p.loaded {
            Some(n) => (AppModel {
                tasks: with_filter(t, PanelView {
                    sidebar_visible: true,
                    notice: None,
                    prompt: Some(fp::PromptView::ConfirmDelete { name: n }),
                    ..p
                }),
                mode: Mode::FilterSetName,
                ..m
            }, no_effects()),
            None => (with_tasks(m, with_filter(t, PanelView { notice: Some("no set is loaded"@), ..p })), no_effects()),
        },
        Action::FilterSetCopyToNew => (with_tasks(m, with_filter(t, PanelView { loaded: None, dirty: false, ..p })), no_effects()),
        Action::FilterSetNew => (with_tasks(sync_of(m).0, fresh_panel(sync_of(m).0.tasks)), fx(sync_of(m).1, true)),
        _ => (m, no_effects()),
    }
}

/// Whether an action switches mode, toggles a pane, or sizes the top pane.
pub open spec fn is_mode_action(a: Action) -> bool {
    a is SetProjectMode || a is SetFilterMode || a is SetTaskMode || a is SetGanttMode || a is ToggleGantt
        || a is ToggleTaskMode || a is ToggleTaskFilters || a is ResizeTopPaneUp || a is ResizeTopPaneDown
        || a is MinimizeTopPane || a is MaximizeTopPane || a is RestoreTopPane
}

/// A mode or pane action carried out.
pub open spec fn mode_action_of(m: AppModel, a: Action) -> (AppModel, Effects) {
    let t = m.tasks;
    match a {
        Action::SetProjectMode => (project_mode_of(m), no_effects()),
        Action::SetFilterMode => (filter_mode_of(m), no_effects()),
        Action::SetTaskMode => (task_mode_of(m), fx(false, true)),
        Action::SetGanttMode => (gantt_mode_of(m), fx(false, true)),
        Action::ToggleGantt => {
            let m1 = with_tasks(m, TaskModel { gantt: GanttModel { visible: !t.gantt.visible, ..t.gantt }, ..t });
            // With the chart gone there is nothing for gantt mode to drive.
            if t.gantt.visible { (task_mode_of(m1), no_effects()) } else { (m1, no_effects()) }
        },
        Action::ToggleTaskMode => if m.mode == Mode::Task { (project_mode_of(m), no_effects()) } else { (task_mode_of(m), fx(false, true)) },
        Action::ToggleTaskFilters => if t.filter.visible {
            (task_mode_of(with_tasks(m, toggled_panel(t))), no_effects())
        } else {
            (filter_mode_of(m), no_effects())
        },
        Action::ResizeTopPaneUp => (AppModel { pane: resized(m.pane, 2), ..m }, no_effects()),
        Action::ResizeTopPaneDown => (AppModel { pane: resized(m.pane, -2), ..m }, no_effects()),
        Action::MinimizeTopPane => (task_mode_of(AppModel {
            pane: if m.pane.mode == PaneMode::Minimized { restored(m.pane) } else { minimized(m.pane) },
            ..m
        }), no_effects()),
        Action::MaximizeTopPane => (AppModel {
            pane: if m.pane.mode == PaneMode::Maximized { restored(m.pane) } else { maximized(m.pane) },
            ..m
        }, no_effects()),
        Action::RestoreTopPane => (AppModel { pane: restored(m.pane), ..m }, no_effects()),
        _ => (m, no_effects()),
    }
}

/// Whether an action drives the chart's dialog, the open cell edit, or a
/// text caret.
pub open spec fn is_edit_action(a: Action) -> bool {
    a is GanttZoomFit || a is GanttOrderMoveUp || a is GanttOrderMoveDown || a is GanttOrderMoveTop
        || a is GanttOrderMoveBottom || a is GanttOrderCommit || a is GanttOrderCancel || a is GanttOpenOrder
        || a is GanttAddColumn || a is GanttRemoveColumn || a is GanttScrollLeft || a is GanttScrollRight
        || a is GanttZoomIn || a is GanttZoomOut || a is GanttToday
        || a is CancelTaskEdit || a is TaskEditCycleValue || a is TaskEditClear
        || a is TextCaretWordBack || a is TextCaretWordForward || a is TextCaretStart || a is TextCaretEnd
}

/// The session with the task pane's chart changed.
pub open spec fn with_gantt(m: AppModel, g: GanttModel) -> AppModel {
    with_tasks(m, TaskModel { gantt: g, ..m.tasks })
}

/// A chart, cell-edit or caret action carried out.
pub open spec fn edit_action_of(m: AppModel, a: Action) -> (AppModel, Effects) {
    let t = m.tasks;
    let g = t.gantt;
    match a {
        Action::GanttZoomFit => (with_gantt(m, GanttModel { timeline: None, ..g }), no_effects()),
        Action::GanttOrderMoveUp => (with_gantt(m, move_value_of(g, MoveTo::Up)), no_effects()),
        Action::GanttOrderMoveDown => (with_gantt(m, move_value_of(g, MoveTo::Down)), no_effects()),
        Action::GanttOrderMoveTop => (with_gantt(m, move_value_of(g, MoveTo::Top)), no_effects()),
        Action::GanttOrderMoveBottom => (with_gantt(m, move_value_of(g, MoveTo::Bottom)), no_effects()),
        Action::GanttOrderCommit => (AppModel { mode: Mode::Gantt, ..with_gantt(m, GanttModel { dialog: None, ..g }) },
            Effects { persist_gantt_colors: true, ..no_effects() }),
        Action::GanttOrderCancel => (AppModel { mode: Mode::Gantt, ..with_gantt(m, cancel_of(g)) }, no_effects()),
        // The dialog lists the values the table's tasks carry.
        Action::GanttOpenOrder => (AppModel { mode: Mode::GanttOrder, ..m }, table_fx(false)),
        Action::CancelTaskEdit => (task_mode_of(with_tasks(m, TaskModel { cell_edit: None, ..t })), no_effects()),
        Action::TaskEditCycleValue(d) => (with_tasks(m, with_cell_edit(t, |e: EditorView| cycled(e, d as int))), no_effects()),
        Action::TaskEditClear => (with_tasks(m, with_cell_edit(t, |e: EditorView| cleared(e))), no_effects()),
        Action::TextCaretWordBack => (with_tasks(m, text_moved(t, TextOp::MoveWord(-1i64))), no_effects()),
        Action::TextCaretWordForward => (with_tasks(m, text_moved(t, TextOp::MoveWord(1i64))), no_effects()),
        Action::TextCaretStart => (with_tasks(m, text_moved(t, TextOp::JumpStart)), no_effects()),
        Action::TextCaretEnd => (with_tasks(m, text_moved(t, TextOp::JumpEnd)), no_effects()),
        // Columns, scrolling, zooming and today read the rows of the table.
        _ => (m, table_fx(false)),
    }
}

/// One reply of a task-data request: the request it answers, whether it
/// is the last, the project it carries data for, and the error if the
/// fetch failed.
#[derive(Debug)]
pub struct TaskDataReply {
    pub generation: u64,
    pub done: bool,
    pub project_id: Option<String>,
    pub error: Option<String>,
}

/// A reply as plain values.
pub struct ReplyView {
    pub generation: int,
    pub done: bool,
    pub has_project: bool,
    pub error: Option<Seq<char>>,
}

impl View for TaskDataReply {
    type V = ReplyView;

    open spec fn view(&self) -> ReplyView {
        ReplyView {
            generation: self.generation as int,
            done: self.done,
            has_project: self.project_id is Some,
            error: match self.error { Some(e) => Some(e@), None => None },
        }
    }
}

/// What taking a reply came to, and so whether to read on.
#[derive(Clone, Copy, Debug, PartialEq, Eq, Structural)]
pub enum PollStep {
    /// A reply to an older request: read on.
    Stale,
    /// The load is over: stop reading.
    Finished,
    /// A reply with no project: read on.
    Skipped,
    /// The fetch failed and the error is recorded: stop reading.
    Failed,
    /// A project's data to merge: read on.
    Ingest,
}

/// A reply taken.
pub open spec fn reply_of(m: AppModel, r: ReplyView) -> (AppModel, PollStep) {
    if r.generation != m.generation {
        (m, PollStep::Stale)
    } else if r.done {
        (with_tasks(m, loading_finished(m.tasks)), PollStep::Finished)
    } else if !r.has_project {
        (m, PollStep::Skipped)
    } else {
        match r.error {
            Some(e) => (with_tasks(m, TaskModel {
                status: crate::task::TaskStatusView::Error(e),
                horizontal_scroll: 0,
                vertical_scroll: 0,
                loading_targets: Seq::empty(),
                loading_ids: Seq::empty(),
                loaded_target_ids: Seq::empty(),
                ..m.tasks
            }), PollStep::Failed),
            None => (m, PollStep::Ingest),
        }
    }
}

/// The cursor action of the task table an action stands for, if any.
pub open spec fn table_action_for(a: Action) -> Option<TableAction> {
    match a {
        Action::MoveUp => Some(TableAction::MoveUp),
        Action::MoveDown => Some(TableAction::MoveDown),
        Action::JumpTop => Some(TableAction::JumpTop),
        Action::JumpBottom => Some(TableAction::JumpBottom),
        _ => None,
    }
}

/// The cursor action of the task table an action stands for, if any.
pub fn table_action(a: &Action) -> (r: Option<TableAction>)
    ensures
        r == table_action_for(*a),
{
    match a {
        Action::MoveUp => Some(TableAction::MoveUp),
        Action::MoveDown => Some(TableAction::MoveDown),
        Action::JumpTop => Some(TableAction::JumpTop),
        Action::JumpBottom => Some(TableAction::JumpBottom),
        _ => None,
    }
}

/// Outside the project list and the colour dialog, with the filter panel
/// closed, the cursor keys move the task table's cursor and change nothing
/// else of the session.
pub proof fn lemma_cursor_keys_move_only_the_table(m: AppModel, a: Action, today: (int, int, int))
    requires
        a is MoveUp || a is MoveDown || a is JumpTop || a is JumpBottom,
        m.mode != Mode::Project,
        m.mode != Mode::ProjectSearch,
        m.mode != Mode::GanttOrder,
        !m.tasks.filter.visible,
    ensures
        action_of(m, a, today).0 == (AppModel {
            table: table_action_of(m.table, table_action_for(a)->0, Seq::empty()).0,
            ..m
        }),
        action_of(m, a, today).1 is None,
        !action_of(m, a, today).2.for_task_table,
{
}

/// Any other action: the colour dialog's cursor in gantt-order mode, a
/// sideways scroll of a drawn table, the project list in project modes,
/// and the task table otherwise.
pub open spec fn other_action_of(m: AppModel, a: Action) -> (AppModel, Effects) {
    let t = m.tasks;
    if m.mode == Mode::GanttOrder && a is MoveUp {
        (with_gantt(m, cursor_move_of(t.gantt, -1)), no_effects())
    } else if m.mode == Mode::GanttOrder && a is MoveDown {
        (with_gantt(m, cursor_move_of(t.gantt, 1)), no_effects())
    } else if a is ScrollLeft && t.visible {
        (with_tasks(m, scrolled_left(t)), no_effects())
    } else if a is ScrollRight && t.visible {
        (with_tasks(m, scrolled_right(t)), no_effects())
    } else {
        let persist = a is ToggleStarredSelected || a is ToggleHiddenSelected;
        let (m2, e) = if m.mode == Mode::Project || m.mode == Mode::ProjectSearch {
            let m1 = AppModel { projects: action_model(m.projects, a), ..m };
            let m2 = if a is StartSearch && m.mode == Mode::Project {
                project_search_mode_of(m1)
            } else if a is ClearSearch && m.mode == Mode::ProjectSearch {
                project_mode_of(m1)
            } else {
                m1
            };
            (m2, fx(false, true))
        } else {
            // With the filter panel open, the cursor keys walk its rows.
            match table_action_for(a) {
                Some(ta) if !t.filter.visible => (AppModel { table: table_action_of(m.table, ta, Seq::empty()).0, ..m }, fx(false, true)),
                _ => (m, table_fx(true)),
            }
        };
        if persist {
            // What is saved is what a later listing is read with.
            (AppModel { visibility: preferences_of(m2.projects.all), ..m2 }, Effects { persist_project_visibility: true, ..e })
        } else {
            (m2, e)
        }
    }
}

/// An action carried out: the session after it, the command it stands for
/// if it is one of the application's, and what is left to do. `today` is
/// the date a filter picker opens on.
pub open spec fn action_of(m: AppModel, a: Action, today: (int, int, int)) -> (AppModel, Option<AppCommand>, Effects) {
    match command_of(a) {
        Some(c) => (m, Some(c), no_effects()),
        None => {
            let (m2, e) = if is_filter_action(a) {
                filter_action_of(m, a, today)
            } else if is_set_action(a) {
                set_action_of(m, a)
            } else if is_mode_action(a) {
                mode_action_of(m, a)
            } else if is_edit_action(a) {
                edit_action_of(m, a)
            } else {
                other_action_of(m, a)
            };
            (m2, None, e)
        },
    }
}

/// A value cycled in an open picker stays within the signed arithmetic
/// the cycling is done in.
pub open spec fn cycle_fits_action(m: AppModel, a: Action) -> bool {
    match a {
        Action::TaskEditCycleValue(d) => match m.tasks.cell_edit {
            Some(e) => cycle_fits(e.editor, d as int),
            None => true,
        },
        _ => true,
    }
}

/// The colour dialog's cursor, moved a step, stays a machine index.
pub open spec fn dialog_cursor_fits(m: AppModel, a: Action) -> bool {
    m.mode == Mode::GanttOrder && (a is MoveUp || a is MoveDown) ==>
        (m.tasks.gantt.dialog matches Some(d) ==> d.selected < isize::MAX)
}

/// Whether a bound action cycles or clears a value picker, which types
/// into a text cell instead.
pub open spec fn is_value_action(a: Action) -> bool {
    a is TaskEditCycleValue || a is TaskEditClear
}

/// Whether a bound action works a labels row, which types into any other.
pub open spec fn is_label_action(a: Action) -> bool {
    a is FilterMoveLabelLeft || a is FilterMoveLabelRight || a is FilterCycleLabelDown
        || a is FilterCycleLabelUp || a is FilterAddLabel || a is FilterDeleteLabel
}

/// The session once the sidebar's prompt, if it has the keys, has read
/// the key.
pub open spec fn key_start(m: AppModel, key: KeyPress) -> AppModel {
    if m.mode == Mode::FilterSetName { name_input_of(m, key).0 } else { m }
}

/// Whether an action's arithmetic stays within machine integers.
pub open spec fn action_fits(m: AppModel, a: Action) -> bool {
    &&& a is ResizeTopPaneUp ==> m.pane.preferred + 2 <= 0x7fff
    &&& cycle_fits_action(m, a)
    &&& dialog_cursor_fits(m, a)
}

/// Whether a key's handling stays within machine integers.
pub open spec fn key_fits(m: AppModel, key: KeyPress, bound: Option<Action>) -> bool {
    let m0 = key_start(m, key);
    &&& m.filter_sets.len() < MAX_SAVED_ENTRIES
    &&& has_row(m0.tasks.filter) ==> row_of(m0.tasks.filter).label_options.len() <= i32::MAX
    &&& bound matches Some(a) ==> action_fits(m0, a)
}

/// A key with a bound action: a plain letter bound to a value action types
/// into a text cell, a label action types into any row but a labels one,
/// and any other action is carried out.
pub open spec fn bound_route_of(m0: AppModel, key: KeyPress, a: Action, today: (int, int, int)) -> (AppModel, Option<AppCommand>, Effects) {
    if is_value_action(a) && m0.mode == Mode::TaskEdit
        && !(m0.tasks.cell_edit matches Some(e) && e.editor is Options) && !key.modified() {
        (task_edit_input_of(m0, key).0, None, no_effects())
    } else if is_label_action(a) {
        (filter_input_of(m0, key, Some(a)).0, None, no_effects())
    } else {
        action_of(m0, a, today)
    }
}

/// A key with no bound action goes to whatever is being typed into: the
/// picker, a cell, a filter row, the project search.
pub open spec fn typed_route_of(m0: AppModel, key: KeyPress) -> AppModel {
    if calendar_input_of(m0, key).1 {
        calendar_input_of(m0, key).0
    } else if task_edit_input_of(m0, key).1 {
        task_edit_input_of(m0, key).0
    } else if m0.tasks.filter.visible && filter_input_of(m0, key, None).1 {
        filter_input_of(m0, key, None).0
    } else if m0.projects.search_active {
        search_input_of(m0, key).0
    } else {
        m0
    }
}

/// A key read, before the bound panel is written back: `bound` is what
/// the key bindings give for the key in the session's mode.
pub open spec fn key_inner_of(m: AppModel, key: KeyPress, bound: Option<Action>, today: (int, int, int)) -> (AppModel, Option<AppCommand>, Effects) {
    if key.code == KeyCode::Char('c') && key.ctrl {
        (m, Some(AppCommand::Quit), no_effects())
    } else if m.mode == Mode::FilterSetName && name_input_of(m, key).1 {
        (name_input_of(m, key).0, None, name_input_of(m, key).2)
    } else {
        match bound {
            Some(a) => bound_route_of(key_start(m, key), key, a, today),
            None => (typed_route_of(key_start(m, key), key), None, no_effects()),
        }
    }
}

/// A key read. Once no more keys are waiting, the bound panel is written
/// back to its entry, so a burst of typing is one write.
pub open spec fn key_of(m: AppModel, key: KeyPress, bound: Option<Action>, today: (int, int, int)) -> (AppModel, Option<AppCommand>, Effects) {
    let (m1, c, e) = key_inner_of(m, key, bound, today);
    if m1.tasks.input_pending {
        (m1, c, e)
    } else {
        (sync_of(m1).0, c, Effects { write_config: e.write_config || sync_of(m1).1, ..e })
    }
}

/// `n` written in decimal.
pub open spec fn decimal(n: nat) -> Seq<char>
    decreases n,
{
    if n < 10 { seq![crate::date::digit_char(n as int)] } else { decimal(n / 10).push(crate::date::digit_char((n % 10) as int)) }
}

/// What a burst with failures reports.
pub open spec fn failure_notice(failures: int, sent: int, error: Seq<char>) -> Seq<char> {
    "could not update "@ + decimal(failures as nat) + " of "@ + decimal(sent as nat) + ": "@ + error
}

/// A batch of task writes sent: any report of the last burst goes.
pub open spec fn edits_sent_of(m: AppModel, count: int) -> AppModel {
    if count == 0 {
        m
    } else {
        AppModel {
            tasks: TaskModel { edit_notice: None, ..m.tasks },
            edits: EditTally { sent: m.edits.sent + count, outstanding: m.edits.outstanding + count, ..m.edits },
            ..m
        }
    }
}

/// One task write answered, with the error if it failed. Once the last
/// reply of a burst is in, a burst with failures is reported once, and the
/// tally starts again.
pub open spec fn edit_reply_of(m: AppModel, error: Option<Seq<char>>) -> AppModel {
    let e = m.edits;
    let outstanding = if e.outstanding > 0 { e.outstanding - 1 } else { 0 };
    let failures = if error is Some { e.failures + 1 } else { e.failures };
    let last = if error is Some { error } else { e.error };
    if outstanding > 0 {
        AppModel { edits: EditTally { outstanding, failures, error: last, ..e }, ..m }
    } else {
        AppModel {
            tasks: if failures > 0 {
                TaskModel {
                    edit_notice: Some(failure_notice(failures, e.sent, match last { Some(t) => t, None => "unknown error"@ })),
                    ..m.tasks
                }
            } else {
                m.tasks
            },
            edits: EditTally { sent: 0, outstanding: 0, failures: 0, error: None },
            ..m
        }
    }
}

/// The projects whose tasks the pane shows: the selected ones, in the
/// list's order, or else the one under the cursor.
pub open spec fn targets_of(l: ListModel) -> Seq<ProjectView> {
    let chosen_ones = chosen(l.all, l.selected_ids);
    if chosen_ones.len() > 0 {
        chosen_ones
    } else if cursor_id(l) is Some {
        seq![l.visible[l.selected.unwrap()]]
    } else {
        Seq::empty()
    }
}

/// The projects whose ids are not among `covered`, in order.
pub open spec fn left_out(ps: Seq<ProjectView>, covered: Seq<Seq<char>>) -> Seq<ProjectView>
    decreases ps.len(),
{
    if ps.len() == 0 {
        ps
    } else if covered.contains(ps.last().0) {
        left_out(ps.drop_last(), covered)
    } else {
        left_out(ps.drop_last(), covered).push(ps.last())
    }
}

/// The request after this one.
pub open spec fn next_generation(g: int) -> int {
    if g == u64::MAX { 0 } else { g + 1 }
}

/// What a task fetch comes to.
#[derive(Debug)]
pub enum FetchPlan {
    /// No project is targeted: the load finished empty.
    NoTargets,
    /// Every target is already cached: the load finished from the cache.
    Cached,
    /// Load these projects' tasks, tagging the replies with the request.
    Fetch { generation: u64, projects: Vec<Project> },
}

/// What a task fetch comes to, as plain values.
pub enum PlanView {
    NoTargets,
    Cached,
    Fetch(int, Seq<ProjectView>),
}

impl View for FetchPlan {
    type V = PlanView;

    open spec fn view(&self) -> PlanView {
        match self {
            FetchPlan::NoTargets => PlanView::NoTargets,
            FetchPlan::Cached => PlanView::Cached,
            FetchPlan::Fetch { generation, projects } => PlanView::Fetch(*generation as int, projects_view(projects@)),
        }
    }
}

/// A task fetch decided, when the cache covers the targets with these ids:
/// no target finishes an empty load; every target covered begins and
/// finishes a load from the cache; otherwise a new request begins, for
/// the targets not covered, and the pane is loading.
pub open spec fn fetch_plan_of(m: AppModel, covered: Seq<Seq<char>>) -> (AppModel, PlanView) {
    let targets = targets_of(m.projects);
    let load = left_out(targets, covered);
    if targets.len() == 0 {
        (with_tasks(m, loading_finished(m.tasks)), PlanView::NoTargets)
    } else if load.len() == 0 {
        (with_tasks(m, loading_finished(loading_begun(m.tasks, targets))), PlanView::Cached)
    } else {
        (AppModel { generation: next_generation(m.generation), tasks: loading_begun(m.tasks, targets), ..m },
            PlanView::Fetch(next_generation(m.generation), load))
    }
}

/// The session after the projects were listed again for a refresh, before
/// the tasks are fetched: the listing is in, nothing of the tasks counts as
/// cached, and a request still in flight is made stale.
pub open spec fn relisted(m: AppModel, ps: Seq<ProjectView>, in_flight: bool) -> AppModel {
    AppModel {
        projects: loaded(m.projects, ps, m.visibility),
        tasks: TaskModel { loaded_target_ids: Seq::empty(), ..m.tasks },
        generation: if in_flight { next_generation(m.generation) } else { m.generation },
        ..m
    }
}

/// The task pane marked out of date by a refresh it cannot show.
pub open spec fn out_of_date(t: TaskModel) -> TaskModel {
    if t.status is Idle {
        t
    } else {
        TaskModel {
            status: crate::task::TaskStatusView::OutOfDate("refreshed; switch to task view to reload"@),
            loading_targets: Seq::empty(),
            loading_ids: Seq::empty(),
            vertical_scroll: 0,
            ..t
        }
    }
}

impl App {
    /// The session as plain values.
    pub closed spec fn model(&self) -> AppModel {
        AppModel {
            projects: self.projects.model(),
            tasks: self.tasks.model(),
            mode: self.mode,
            pane: self.panel_size@,
            filter_sets: named_view(self.filter_sets@),
            visibility: prefs_view(self.project_visibility@),
            edits: EditTally {
                sent: self.task_edits_sent as int,
                outstanding: self.task_edits_outstanding as int,
                failures: self.task_edit_failures as int,
                error: match self.task_edit_error {
                    Some(e) => Some(e@),
                    None => None,
                },
            },
            generation: self.task_data_generation as int,
            table: self.table.model(),
        }
    }

    /// The project list is well formed and the session's bounds hold.
    pub closed spec fn wf(&self) -> bool {
        self.projects.wf() && app_wf(self.model()) && self.table.wf()
    }

    /// A session on the project list, with the chart set up as configured,
    /// the saved filter entries it can load, and the starred and hidden
    /// projects a listing is read with.
    pub fn new(config: Config) -> (r: App)
        requires
            config.filter_sets.len() <= MAX_SAVED_ENTRIES,
        ensures
            r.wf(),
            r.model().projects == crate::project_list::empty_model(),
            r.model().tasks == (TaskModel { gantt: crate::gantt::config_model(config.gantt), ..crate::task::fresh_task_model() }),
            r.model().mode == Mode::Project,
            r.model().pane == (PaneModel { preferred: 11, saved_preferred: 11, mode: PaneMode::Normal }),
            r.model().filter_sets == named_view(config.filter_sets@),
            r.model().visibility == prefs_view(config.project_visibility@),
            r.model().edits == (EditTally { sent: 0, outstanding: 0, failures: 0, error: None }),
            r.model().generation == 0,
    {
        let Config { gantt, project_visibility, filter_sets } = config;
        let mut tasks = TaskState::new();
        tasks.apply_gantt_config(&gantt);
        App {
            projects: ProjectListState::new(),
            tasks,
            mode: Mode::Project,
            panel_size: PaneSizeState::default(),
            filter_sets,
            project_visibility,
            task_edits_sent: 0,
            task_edits_outstanding: 0,
            task_edit_failures: 0,
            task_edit_error: None,
            task_data_generation: 0,
            table: TaskTable::new(),
        }
    }

    /// The task table's cursor and chosen tasks.
    pub fn table(&self) -> (r: &TaskTable)
        ensures
            r.model() == self.model().table,
            self.wf() ==> r.wf(),
    {
        &self.table
    }

    /// Takes the rebuilt task table and pane of recent edits, and puts the
    /// cursor back as `rebuilt` says; `records` are the tasks the rows come
    /// from.
    pub fn rebuild_table(&mut self, rows: Vec<TableRow>, recent: Vec<TableRow>, column_count: usize, records: &[TaskRecord])
        requires
            old(self).wf(),
            column_count <= i64::MAX,
        ensures
            final(self).wf(),
            final(self).model() == (AppModel {
                table: rebuilt(old(self).model().table, rows_view(rows@), rows_view(recent@), column_count as int, record_views(records@)),
                ..old(self).model()
            }),
    {
        self.table.rebuild(rows, recent, column_count, records);
    }

    /// Carries out one of the task table's own actions on `records`, the
    /// tasks it shows; hands back the text for the clipboard when the
    /// action copies and there is any.
    pub fn apply_table_action(&mut self, action: TableAction, records: &[TaskRecord]) -> (r: Option<String>)
        requires
            old(self).wf(),
        ensures
            final(self).wf(),
            final(self).model() == (AppModel {
                table: table_action_of(old(self).model().table, action, record_views(records@)).0,
                ..old(self).model()
            }),
            (match r { Some(t) => Some(t@), None => None })
                == table_action_of(old(self).model().table, action, record_views(records@)).1,
    {
        self.table.apply(action, records)
    }

    /// Takes in the answer to a project listing, read with the session's
    /// starred and hidden projects; an error is recorded and handed back.
    pub fn receive_projects(&mut self, listed: Result<Vec<Project>, Error>) -> (r: Result<(), Error>)
        requires
            old(self).wf(),
        ensures
            final(self).wf(),
            match listed {
                Ok(ps) => r is Ok && final(self).model() == (AppModel {
                    projects: loaded(old(self).model().projects, projects_view(ps@), old(self).model().visibility),
                    ..old(self).model()
                }),
                Err(e) => r == Err::<(), Error>(e) && final(self).model() == (AppModel {
                    projects: failed(old(self).model().projects, e),
                    ..old(self).model()
                }),
            },
    {
        self.projects.receive(listed, self.project_visibility.as_slice())
    }

    /// The starred and hidden projects, as they are saved.
    pub fn project_visibility(&self) -> (r: &Vec<ProjectVisibilityConfig>)
        ensures
            prefs_view(r@) == self.model().visibility,
    {
        &self.project_visibility
    }

    /// Which part of the screen the keys go to.
    pub fn mode(&self) -> (r: Mode)
        ensures
            r == self.model().mode,
    {
        self.mode
    }

    /// The top pane's size.
    pub fn panel_size(&self) -> (r: &PaneSizeState)
        ensures
            r@ == self.model().pane,
    {
        &self.panel_size
    }

    /// The saved filter entries, in the order they were written.
    pub fn filter_sets(&self) -> (r: &Vec<NamedFilterSet>)
        ensures
            named_view(r@) == self.model().filter_sets,
    {
        &self.filter_sets
    }

    fn prepare_mode_switch(&mut self)
        requires
            old(self).wf(),
        ensures
            final(self).wf(),
            final(self).model() == prepared(old(self).model()),
    {
        if self.panel_size.is_minimized() {
            self.panel_size.restore();
        }
        if self.projects.search_active() {
            self.projects.end_search();
        }
    }

    fn hide_filter_panel(&mut self)
        requires
            old(self).wf(),
        ensures
            final(self).wf(),
            final(self).model() == (AppModel { tasks: panel_hidden(old(self).model().tasks), ..old(self).model() }),
    {
        if self.tasks.filter_panel_visible() {
            self.tasks.toggle_filter_panel();
        }
    }

    fn show_filter_panel(&mut self)
        requires
            old(self).wf(),
        ensures
            final(self).wf(),
            final(self).model() == (AppModel { tasks: panel_up(old(self).model().tasks), ..old(self).model() }),
    {
        self.tasks.set_visible(true);
        if !self.tasks.filter_panel_visible() {
            self.tasks.toggle_filter_panel();
        }
    }

    fn set_project_mode(&mut self)
        requires
            old(self).wf(),
        ensures
            final(self).wf(),
            final(self).model() == project_mode_of(old(self).model()),
    {
        self.prepare_mode_switch();
        self.hide_filter_panel();
        self.mode = Mode::Project;
    }

    fn set_project_search_mode(&mut self)
        requires
            old(self).wf(),
        ensures
            final(self).wf(),
            final(self).model() == project_search_mode_of(old(self).model()),
    {
        if self.panel_size.is_minimized() {
            self.panel_size.restore();
        }
        self.hide_filter_panel();
        self.mode = Mode::ProjectSearch;
    }

    fn set_filter_mode(&mut self)
        requires
            old(self).wf(),
        ensures
            final(self).wf(),
            final(self).model() == filter_mode_of(old(self).model()),
    {
        self.prepare_mode_switch();
        self.mode = Mode::Filter;
        self.show_filter_panel();
        if self.tasks.filter_panel_editing() {
            self.tasks.filter_edit_done();
        }
    }

    fn set_filter_edit_mode(&mut self)
        requires
            old(self).wf(),
        ensures
            final(self).wf(),
            final(self).model() == filter_edit_mode_of(old(self).model()),
    {
        self.prepare_mode_switch();
        self.mode = Mode::FilterEdit;
        self.show_filter_panel();
        if !self.tasks.filter_panel_editing() {
            self.tasks.filter_edit_begin();
        }
    }

    /// Enters the date picker. The picker owns the whole date edit, so the
    /// filter panel's own text-edit flag is left as it is.
    fn set_calendar_mode(&mut self)
        requires
            old(self).wf(),
        ensures
            final(self).wf(),
            final(self).model() == calendar_mode_of(old(self).model()),
    {
        self.prepare_mode_switch();
        self.mode = Mode::Calendar;
        self.show_filter_panel();
    }

    /// Enters gantt mode with the chart drawn: the mode and the thing it
    /// drives are turned on together.
    fn set_gantt_mode(&mut self)
        requires
            old(self).wf(),
        ensures
            final(self).wf(),
            final(self).model() == gantt_mode_of(old(self).model()),
    {
        self.prepare_mode_switch();
        self.mode = Mode::Gantt;
        self.tasks.set_visible(true);
        self.tasks.set_gantt_visible(true);
        self.hide_filter_panel();
    }

    /// A date cell is edited on the calendar, which already owns a mode
    /// and its keys; every other cell types.
    fn set_task_edit_mode(&mut self)
        requires
            old(self).wf(),
        ensures
            final(self).wf(),
            final(self).model() == task_edit_mode_of(old(self).model()),
    {
        self.mode = if self.tasks.cell_edit_owns_calendar() { Mode::Calendar } else { Mode::TaskEdit };
    }

    fn set_task_mode(&mut self)
        requires
            old(self).wf(),
        ensures
            final(self).wf(),
            final(self).model() == task_mode_of(old(self).model()),
    {
        if self.projects.search_active() {
            self.projects.end_search();
        }
        self.mode = Mode::Task;
        self.tasks.set_visible(true);
        self.hide_filter_panel();
    }
    fn adjust_top_pane_height(&mut self, delta: i16)
        requires
            old(self).wf(),
            old(self).model().pane.preferred + delta <= 0x7fff,
        ensures
            final(self).wf(),
            final(self).model() == (AppModel { pane: resized(old(self).model().pane, delta as int), ..old(self).model() }),
    {
        self.panel_size.resize(delta);
    }

    fn minimize_top_pane(&mut self)
        requires
            old(self).wf(),
        ensures
            final(self).wf(),
            final(self).model() == (AppModel { pane: minimized(old(self).model().pane), ..old(self).model() }),
    {
        self.panel_size.minimize();
    }

    fn maximize_top_pane(&mut self)
        requires
            old(self).wf(),
        ensures
            final(self).wf(),
            final(self).model() == (AppModel { pane: maximized(old(self).model().pane), ..old(self).model() }),
    {
        self.panel_size.maximize();
    }

    fn restore_top_pane(&mut self)
        requires
            old(self).wf(),
        ensures
            final(self).wf(),
            final(self).model() == (AppModel { pane: restored(old(self).model().pane), ..old(self).model() }),
    {
        self.panel_size.restore();
    }

    /// Reads a key while the project search is typed. Escape and enter
    /// close the search; a plain character is added to it in lower case.
    pub fn handle_project_search_input(&mut self, key: KeyPress) -> (r: bool)
        requires
            old(self).wf(),
        ensures
            final(self).wf(),
            (final(self).model(), r) == search_input_of(old(self).model(), key),
    {
        let mut handled = false;
        match key.code {
            KeyCode::Esc | KeyCode::Enter => {
                self.projects.end_search();
                self.set_project_mode();
                handled = true;
            }
            KeyCode::Backspace => {
                self.projects.pop_search_char();
                handled = true;
            }
            KeyCode::Char(c) => {
                if !key.modified() {
                    self.projects.push_search_char(crate::text::lower_char_exec(c));
                    handled = true;
                }
            }
            _ => {}
        }
        handled
    }

    /// Reads a key while the date picker is open: typed text goes into the
    /// query the picker shows.
    pub fn handle_calendar_input(&mut self, key: KeyPress) -> (r: bool)
        requires
            old(self).wf(),
        ensures
            final(self).wf(),
            (final(self).model(), r) == calendar_input_of(old(self).model(), key),
    {
        if !self.tasks.calendar_open() {
            return false;
        }
        let mut handled = false;
        match key.code {
            KeyCode::Backspace => {
                self.tasks.filter_calendar_pop_char();
                handled = true;
            }
            KeyCode::Char(c) => {
                if !key.modified() {
                    self.tasks.filter_calendar_push_char(c);
                    handled = true;
                }
            }
            _ => {}
        }
        handled
    }

    /// Reads a key while a cell is edited. A value picker holds no text,
    /// so nothing is typed into one.
    pub fn handle_task_edit_input(&mut self, key: KeyPress) -> (r: bool)
        requires
            old(self).wf(),
        ensures
            final(self).wf(),
            (final(self).model(), r) == task_edit_input_of(old(self).model(), key),
    {
        if !self.tasks.cell_edit_open() {
            return false;
        }
        if self.tasks.cell_edit_is_options() {
            return false;
        }
        let mut handled = false;
        match key.code {
            KeyCode::Backspace => {
                self.tasks.cell_edit_pop_char();
                handled = true;
            }
            KeyCode::Char(c) => {
                if !key.modified() {
                    self.tasks.cell_edit_push_char(c);
                    handled = true;
                }
            }
            _ => {}
        }
        handled
    }

    /// Reads a key while a filter row is typed into. On a labels row the
    /// label actions the key is bound to act; otherwise a plain character
    /// is typed.
    pub fn handle_filter_field_input(&mut self, key: KeyPress, action: Option<Action>) -> (r: bool)
        requires
            old(self).wf(),
            has_row(old(self).model().tasks.filter) ==> row_of(old(self).model().tasks.filter).label_options.len() <= i32::MAX,
        ensures
            final(self).wf(),
            (final(self).model(), r) == filter_input_of(old(self).model(), key, action),
    {
        if !self.tasks.filter_panel_editing() {
            return false;
        }
        if key.code == KeyCode::Backspace {
            self.tasks.filter_pop_char();
            return true;
        }
        let is_labels = match self.tasks.filter_selected_kind() {
            Some(TaskFieldFilterKind::Labels) => true,
            _ => false,
        };
        if is_labels {
            match action {
                Some(Action::FilterMoveLabelLeft) => { self.tasks.filter_move_label_left(); return true; }
                Some(Action::FilterMoveLabelRight) => { self.tasks.filter_move_label_right(); return true; }
                Some(Action::FilterCycleLabelDown) => { self.tasks.filter_cycle_label_value(1); return true; }
                Some(Action::FilterCycleLabelUp) => { self.tasks.filter_cycle_label_value(-1); return true; }
                Some(Action::FilterAddLabel) => { self.tasks.filter_add_label(); return true; }
                Some(Action::FilterDeleteLabel) => { self.tasks.filter_delete_label(); return true; }
                _ => {}
            }
        }
        let mut handled = false;
        match key.code {
            KeyCode::Char(c) => {
                if !key.modified() {
                    self.tasks.filter_push_char(c);
                    handled = true;
                }
            }
            _ => {}
        }
        handled
    }

    /// Moves the caret in whichever filter editor is active. A date being
    /// picked keeps its caret in the picker, which decides which end of a
    /// range the navigation keys rewrite.
    fn move_filter_caret(&mut self, delta: i64)
        requires
            old(self).wf(),
        ensures
            final(self).wf(),
            final(self).model() == with_tasks(old(self).model(), filter_caret_moved(old(self).model().tasks, delta)),
    {
        if self.tasks.calendar_open() {
            self.tasks.filter_calendar_move_caret(delta);
        } else if self.tasks.cell_edit_open() {
            self.tasks.cell_edit_move_caret(delta);
        } else {
            self.tasks.filter_move_caret(delta);
        }
    }

    /// Runs a shared text motion on whichever buffer is being typed into.
    fn move_text_caret(&mut self, op: TextOp)
        requires
            old(self).wf(),
            op is MoveWord || op is JumpStart || op is JumpEnd,
        ensures
            final(self).wf(),
            final(self).model() == with_tasks(old(self).model(), text_moved(old(self).model().tasks, op)),
    {
        if self.tasks.cell_edit_open() {
            match op {
                TextOp::MoveWord(d) => self.tasks.cell_edit_move_word(d),
                TextOp::JumpStart => self.tasks.cell_edit_jump_start(),
                _ => self.tasks.cell_edit_jump_end(),
            }
            return;
        }
        match op {
            TextOp::MoveWord(d) => self.tasks.filter_move_word(d),
            TextOp::JumpStart => self.tasks.filter_caret_to_start(),
            _ => self.tasks.filter_caret_to_end(),
        }
    }
    /// Keeps the numbered window pointing at entries that still exist.
    fn clamp_filter_sets_page(&mut self)
        requires
            old(self).wf(),
        ensures
            final(self).wf(),
            final(self).model() == with_tasks(old(self).model(), with_filter(old(self).model().tasks,
                fp::page_sidebar_of(old(self).model().tasks.filter, 0, old(self).model().filter_sets.len() as usize))),
    {
        let total = self.filter_sets.len();
        self.tasks.filter_sets_page(0, total);
        proof { lemma_page_bound(old(self).model().tasks.filter, 0, total); }
    }

    /// Writes the bound panel back to its entry when something changed.
    /// The answer is whether the entries now need writing out.
    fn sync_named_filter_set(&mut self) -> (write: bool)
        requires
            old(self).wf(),
        ensures
            final(self).wf(),
            (final(self).model(), write) == sync_of(old(self).model()),
    {
        if !self.tasks.filter_set_dirty() {
            return false;
        }
        // Cleared whether or not anything is written, so an entry that
        // cannot be written is reported once rather than once a key.
        self.tasks.clear_filter_set_dirty();
        let name = match self.tasks.filter_set_loaded_name() {
            Some(n) => string_from_chars(&chars_of(n)),
            None => return false,
        };
        let sets = self.tasks.filter_sets_to_saved();
        proof { lemma_saved_form(sets@, self.model().tasks.filter); }
        match find_entry(&self.filter_sets, name.as_str(), false) {
            None => false,
            Some(i) => {
                if same_saved_sets(&self.filter_sets[i].sets, &sets) {
                    return false;
                }
                let entry_name = self.filter_sets[i].name.clone();
                let ghost before = self.filter_sets@;
                self.filter_sets.set(i, NamedFilterSet { name: entry_name, sets });
                proof {
                    assert(named_view(self.filter_sets@) =~= named_view(before).update(i as int,
                        NamedView { sets: saved_form(old(self).model().tasks.filter), ..named_view(before)[i as int] }));
                }
                true
            }
        }
    }

    /// Replaces the panel with the entry of exactly this name. Whatever the
    /// bound panel still held is written back first, since the panel is
    /// about to go. The answer is whether the entries now need writing out.
    fn load_named_filter_set(&mut self, name: &str) -> (write: bool)
        requires
            old(self).wf(),
        ensures
            final(self).wf(),
            (final(self).model(), write) == load_named_of(old(self).model(), name@),
    {
        let write = self.sync_named_filter_set();
        match find_entry(&self.filter_sets, name, true) {
            None => write,
            Some(i) => {
                self.tasks.filter_sets_load(self.filter_sets[i].name.as_str(), self.filter_sets[i].sets.as_slice());
                write
            }
        }
    }

    /// Commits `w`: the panel saved under the typed name, trimmed, and
    /// bound to it. An empty name is refused with the prompt left open: an
    /// entry nothing can name is one nothing can load or delete.
    fn commit_filter_set_save(&mut self) -> (fx: Effects)
        requires
            old(self).wf(),
            old(self).model().filter_sets.len() < MAX_SAVED_ENTRIES,
        ensures
            final(self).wf(),
            (final(self).model(), fx) == save_of(old(self).model()),
    {
        let text: Vec<char> = match self.tasks.filter_set_prompt_text() {
            Some(t) => chars_of(t),
            None => Vec::new(),
        };
        assert(text@ == prompt_text(old(self).model().tasks.filter));
        let trimmed = trim_chars(&text);
        if trimmed.len() == 0 {
            self.tasks.set_filter_sets_notice("a name is required");
            return effects(false, false);
        }
        let name = string_from_chars(&trimmed);
        let sets = self.tasks.filter_sets_to_saved();
        proof { lemma_saved_form(sets@, old(self).model().tasks.filter); }
        let ghost before = self.filter_sets@;
        match find_entry(&self.filter_sets, name.as_str(), false) {
            Some(i) => {
                self.filter_sets.set(i, NamedFilterSet { name: name.clone(), sets });
                proof {
                    assert(named_view(self.filter_sets@) =~= named_view(before).update(i as int,
                        NamedView { name: name@, sets: saved_form(old(self).model().tasks.filter) }));
                }
            }
            None => {
                self.filter_sets.push(NamedFilterSet { name: name.clone(), sets });
                proof {
                    assert(named_view(self.filter_sets@) =~= named_view(before).push(
                        NamedView { name: name@, sets: saved_form(old(self).model().tasks.filter) }));
                }
            }
        }
        self.tasks.filter_set_prompt_cancel();
        self.tasks.filter_set_bind(name.as_str());
        self.set_filter_mode();
        effects(true, false)
    }

    /// Commits `d`: the loaded entry goes and the panel is detached.
    fn commit_filter_set_delete(&mut self)
        requires
            old(self).wf(),
        ensures
            final(self).wf(),
            final(self).model() == delete_of(old(self).model()),
    {
        let loaded = match self.tasks.filter_set_loaded_name() {
            Some(n) => Some(string_from_chars(&chars_of(n))),
            None => None,
        };
        match loaded {
            Some(name) => {
                let mut entries: Vec<NamedFilterSet> = Vec::new();
                std::mem::swap(&mut entries, &mut self.filter_sets);
                self.filter_sets = kept_entries(entries, name.as_str());
                proof { lemma_kept_len(named_view(old(self).filter_sets@), name@); }
            }
            None => {}
        }
        self.tasks.filter_set_prompt_cancel();
        self.tasks.filter_set_detach();
        self.clamp_filter_sets_page();
        self.set_filter_mode();
    }

    /// Commits `y` at a load confirmation: the unnamed panel goes.
    fn commit_filter_set_load(&mut self, name: &str) -> (fx: Effects)
        requires
            old(self).wf(),
        ensures
            final(self).wf(),
            (final(self).model(), fx) == confirm_load_of(old(self).model(), name@),
    {
        self.tasks.filter_set_prompt_cancel();
        self.set_filter_mode();
        let write = self.load_named_filter_set(name);
        effects(write, true)
    }

    /// Reports how writing the entries out went: clears any report, or says
    /// on the sidebar why they could not be saved.
    pub fn report_write(&mut self, error: Option<&str>)
        requires
            old(self).wf(),
        ensures
            final(self).wf(),
            final(self).model() == with_tasks(old(self).model(), match error {
                None => TaskModel { filter: PanelView { notice: None, ..old(self).model().tasks.filter }, ..old(self).model().tasks },
                Some(e) => noticed(old(self).model().tasks, "could not save: "@ + e@),
            }),
    {
        match error {
            None => self.tasks.clear_filter_sets_notice(),
            Some(e) => {
                let mut message = String::new();
                push_str(&mut message, "could not save: ");
                push_str(&mut message, e);
                self.tasks.set_filter_sets_notice(message.as_str());
            }
        }
    }
    /// A key at the save prompt.
    fn save_prompt_key(&mut self, key: KeyPress) -> (r: (bool, Effects))
        requires
            old(self).wf(),
            old(self).model().filter_sets.len() < MAX_SAVED_ENTRIES,
        ensures
            final(self).wf(),
            (final(self).model(), r.0, r.1) == save_input_of(old(self).model(), key),
    {
        let none = effects(false, false);
        match key.code {
            KeyCode::Enter => {
                let fx = self.commit_filter_set_save();
                (true, fx)
            }
            KeyCode::Esc => {
                self.tasks.filter_set_prompt_cancel();
                self.set_filter_mode();
                (true, none)
            }
            KeyCode::Backspace => {
                self.tasks.filter_set_prompt_pop_char();
                (true, none)
            }
            KeyCode::Left => {
                self.tasks.filter_set_prompt_move_caret(-1);
                (true, none)
            }
            KeyCode::Right => {
                self.tasks.filter_set_prompt_move_caret(1);
                (true, none)
            }
            KeyCode::Char(c) => {
                if key.modified() {
                    (false, none)
                } else {
                    self.tasks.filter_set_prompt_push_char(c);
                    (true, none)
                }
            }
            _ => (false, none),
        }
    }

    /// A key at a confirmation; `load` names the entry a load would bring,
    /// and is `None` for a delete.
    fn confirm_key(&mut self, key: KeyPress, load: Option<String>) -> (r: (bool, Effects))
        requires
            old(self).wf(),
        ensures
            final(self).wf(),
            (final(self).model(), r.0, r.1) == confirm_input_of(old(self).model(), key, match load { Some(n) => Some(n@), None => None }),
    {
        let none = effects(false, false);
        let typed: Option<char> = match key.code {
            KeyCode::Char(c) => if key.modified() { None } else { Some(c) },
            _ => None,
        };
        if typed == Some('y') || typed == Some('Y') {
            match load {
                Some(name) => {
                    let fx = self.commit_filter_set_load(name.as_str());
                    (true, fx)
                }
                None => {
                    self.commit_filter_set_delete();
                    (true, effects(true, false))
                }
            }
        } else if typed == Some('n') || typed == Some('N') || key.code == KeyCode::Esc {
            self.tasks.filter_set_prompt_cancel();
            self.set_filter_mode();
            (true, none)
        } else {
            (false, none)
        }
    }

    /// Reads a key while the sidebar's prompt is open: a name being typed
    /// for `w`, or the yes or no to a delete or a load. Read outside the
    /// key bindings, so an unbound letter types rather than acting.
    pub fn handle_filter_set_name_input(&mut self, key: KeyPress) -> (r: (bool, Effects))
        requires
            old(self).wf(),
            old(self).model().filter_sets.len() < MAX_SAVED_ENTRIES,
        ensures
            final(self).wf(),
            (final(self).model(), r.0, r.1) == name_input_of(old(self).model(), key),
    {
        let (kind, load_name): (u8, Option<String>) = match self.tasks.filter_set_prompt() {
            None => {
                // The mode outlived its prompt; left alone it would swallow
                // every key from here on.
                self.set_filter_mode();
                return (false, effects(false, false));
            }
            Some(SidebarPrompt::Save { .. }) => (0, None),
            Some(SidebarPrompt::ConfirmDelete { .. }) => (1, None),
            Some(SidebarPrompt::ConfirmLoad { name }) => (2, Some(name.clone())),
        };
        if kind == 0 {
            self.save_prompt_key(key)
        } else {
            self.confirm_key(key, load_name)
        }
    }
    /// Opens the row under the filter cursor for editing: a date row on
    /// the calendar, any other as text.
    fn begin_filter_edit(&mut self)
        requires
            old(self).wf(),
        ensures
            final(self).wf(),
            exists|today: (int, int, int)| crate::date::valid_ymd(today) && #[trigger] filter_action_of(old(self).model(), Action::BeginFilterEdit, today) == (final(self).model(), no_effects()),
    {
        let ghost m = self.model();
        if self.tasks.filter_calendar_begin() {
            let ghost today = choose|d: (int, int, int)| crate::date::valid_ymd(d) && self.tasks.model() == calendar_begun(m.tasks, d);
            self.set_calendar_mode();
            assert(filter_action_of(m, Action::BeginFilterEdit, today) == (self.model(), no_effects()));
        } else {
            self.tasks.filter_edit_begin();
            self.set_filter_edit_mode();
            assert(filter_action_of(m, Action::BeginFilterEdit, (1970, 1, 1)) == (self.model(), no_effects()));
        }
    }

    /// Commits, closes or clears a picker: a task date's picker acts on
    /// the cell, the filter's on its row, which then goes back to browsing.
    fn end_picker(&mut self, action: &Action) -> (fx: Effects)
        requires
            old(self).wf(),
            *action is CalendarCommit || *action is CalendarClose || *action is CalendarClear,
        ensures
            final(self).wf(),
            (final(self).model(), fx) == filter_action_of(old(self).model(), *action, (1970, 1, 1)),
    {
        let none = effects(false, false);
        if self.tasks.cell_edit_owns_calendar() {
            match action {
                Action::CalendarCommit => {
                    // The same key, one layer over: the cell is committed.
                    self.tasks.calendar_normalize();
                    Effects { for_task_table: true, ..none }
                }
                Action::CalendarClose => {
                    self.tasks.cancel_cell_edit();
                    self.set_task_mode();
                    none
                }
                _ => {
                    // The picker stays open on a task date: emptying the
                    // value and sending it are still one path.
                    self.tasks.calendar_clear_text();
                    none
                }
            }
        } else {
            match action {
                Action::CalendarCommit => self.tasks.filter_calendar_commit(),
                Action::CalendarClose => self.tasks.filter_calendar_close(),
                _ => self.tasks.filter_calendar_clear(),
            }
            self.set_filter_mode();
            effects(false, true)
        }
    }

    /// Ends the filter edit: `done` keeps the panel in browse mode, and
    /// otherwise the panel closes and the table has the keys.
    fn end_filter_edit(&mut self, done: bool) -> (fx: Effects)
        requires
            old(self).wf(),
        ensures
            final(self).wf(),
            (final(self).model(), fx) == filter_action_of(old(self).model(),
                if done { Action::FilterDoneEditing } else { Action::FilterCancelEditing }, (1970, 1, 1)),
    {
        self.tasks.filter_calendar_close();
        self.tasks.filter_edit_done();
        if done {
            self.set_filter_mode();
            effects(false, true)
        } else {
            self.tasks.toggle_filter_panel();
            self.set_task_mode();
            effects(false, false)
        }
    }

    /// Moves a caret or the picker's date.
    fn filter_step(&mut self, action: &Action)
        requires
            old(self).wf(),
            *action is FilterCaretLeft || *action is FilterCaretRight || *action is CalendarJumpToStart
                || *action is CalendarJumpToEnd || *action is CalendarPrevDay || *action is CalendarNextDay
                || *action is CalendarPrevMonth || *action is CalendarNextMonth || *action is CalendarToday,
        ensures
            final(self).wf(),
            (final(self).model(), no_effects()) == filter_action_of(old(self).model(), *action, (1970, 1, 1)),
    {
        match action {
            Action::FilterCaretLeft => self.move_filter_caret(-1),
            Action::FilterCaretRight => self.move_filter_caret(1),
            Action::CalendarJumpToStart => self.tasks.filter_calendar_jump_to_start(),
            Action::CalendarJumpToEnd => self.tasks.filter_calendar_jump_to_end(),
            Action::CalendarPrevDay => self.tasks.filter_calendar_move_days(-1),
            Action::CalendarNextDay => self.tasks.filter_calendar_move_days(1),
            Action::CalendarPrevMonth => self.tasks.filter_calendar_move_months(-1),
            Action::CalendarNextMonth => self.tasks.filter_calendar_move_months(1),
            _ => self.tasks.filter_calendar_today(),
        }
    }

    /// A filter-editing action.
    fn filter_action(&mut self, action: &Action) -> (fx: Effects)
        requires
            old(self).wf(),
            is_filter_action(*action),
        ensures
            final(self).wf(),
            exists|today: (int, int, int)| crate::date::valid_ymd(today) && #[trigger] filter_action_of(old(self).model(), *action, today) == (final(self).model(), fx),
    {
        let ghost m = self.model();
        match action {
            Action::BeginFilterEdit => {
                self.begin_filter_edit();
                effects(false, false)
            }
            Action::CalendarCommit | Action::CalendarClose | Action::CalendarClear => {
                let fx = self.end_picker(action);
                assert(filter_action_of(m, *action, (1970, 1, 1)) == (self.model(), fx));
                fx
            }
            Action::FilterDoneEditing => {
                let fx = self.end_filter_edit(true);
                assert(filter_action_of(m, *action, (1970, 1, 1)) == (self.model(), fx));
                fx
            }
            Action::FilterCancelEditing => {
                let fx = self.end_filter_edit(false);
                assert(filter_action_of(m, *action, (1970, 1, 1)) == (self.model(), fx));
                fx
            }
            _ => {
                self.filter_step(action);
                assert(filter_action_of(m, *action, (1970, 1, 1)) == (self.model(), no_effects()));
                effects(false, false)
            }
        }
    }

    /// A sidebar action.
    #[verifier::rlimit(40)]
    fn set_action(&mut self, action: &Action) -> (fx: Effects)
        requires
            old(self).wf(),
            is_set_action(*action),
        ensures
            final(self).wf(),
            (final(self).model(), fx) == set_action_of(old(self).model(), *action),
    {
        let none = effects(false, false);
        let total = self.filter_sets.len();
        match action {
            Action::FilterSetsToggle => {
                self.tasks.filter_sets_toggle_sidebar();
                self.clamp_filter_sets_page();
                none
            }
            Action::FilterSetsPageBack => {
                self.tasks.filter_sets_page(-1, total);
                proof { lemma_page_bound(old(self).model().tasks.filter, -1i32, total); }
                none
            }
            Action::FilterSetsPageForward => {
                self.tasks.filter_sets_page(1, total);
                proof { lemma_page_bound(old(self).model().tasks.filter, 1i32, total); }
                none
            }
            Action::FilterSetLoad(position) => {
                let offset: usize = if *position > 0 { (*position - 1) as usize } else { 0 };
                let place = self.tasks.filter_sets_page_start() + offset;
                match entry_at_rank(&self.filter_sets, place) {
                    None => none,
                    Some(i) => {
                        let name = self.filter_sets[i].name.clone();
                        if self.tasks.filter_set_is_unsaved() {
                            // A bound panel is already on disk; an unnamed one
                            // that filters exists nowhere else, and the digit
                            // did not ask for it to be thrown away.
                            self.tasks.filter_set_prompt_confirm_load(name.as_str());
                            self.mode = Mode::FilterSetName;
                            none
                        } else {
                            // Loading can widen the due window pushed down to
                            // the server, so the fetch decision runs after it.
                            let write = self.load_named_filter_set(name.as_str());
                            effects(write, true)
                        }
                    }
                }
            }
            Action::FilterSetSave => {
                self.tasks.filter_set_prompt_save();
                self.mode = Mode::FilterSetName;
                none
            }
            Action::FilterSetDelete => {
                if self.tasks.filter_set_prompt_delete() {
                    self.mode = Mode::FilterSetName;
                }
                none
            }
            Action::FilterSetCopyToNew => {
                self.tasks.filter_set_detach();
                none
            }
            _ => {
                // The panel is about to go, and the write-through would run
                // only after this key: write first.
                let write = self.sync_named_filter_set();
                self.tasks.filter_set_new();
                effects(write, true)
            }
        }
    }

    /// A mode or pane action.
    fn mode_action(&mut self, action: &Action) -> (fx: Effects)
        requires
            old(self).wf(),
            is_mode_action(*action),
            *action is ResizeTopPaneUp ==> old(self).model().pane.preferred + 2 <= 0x7fff,
        ensures
            final(self).wf(),
            (final(self).model(), fx) == mode_action_of(old(self).model(), *action),
    {
        let none = effects(false, false);
        match action {
            Action::SetProjectMode => { self.set_project_mode(); none }
            Action::SetFilterMode => { self.set_filter_mode(); none }
            Action::SetTaskMode => { self.set_task_mode(); effects(false, true) }
            Action::SetGanttMode => { self.set_gantt_mode(); effects(false, true) }
            Action::ToggleGantt => {
                self.tasks.toggle_gantt_visible();
                if !self.tasks.gantt().visible() {
                    self.set_task_mode();
                }
                none
            }
            Action::ToggleTaskMode => {
                if self.mode == Mode::Task {
                    self.set_project_mode();
                    none
                } else {
                    self.set_task_mode();
                    effects(false, true)
                }
            }
            Action::ToggleTaskFilters => {
                if self.tasks.filter_panel_visible() {
                    self.tasks.toggle_filter_panel();
                    self.set_task_mode();
                } else {
                    self.set_filter_mode();
                }
                none
            }
            Action::ResizeTopPaneUp => { self.adjust_top_pane_height(2); none }
            Action::ResizeTopPaneDown => {
                self.panel_size.well_formed();
                self.adjust_top_pane_height(-2);
                none
            }
            Action::MinimizeTopPane => {
                if self.panel_size.is_minimized() {
                    self.restore_top_pane();
                } else {
                    self.minimize_top_pane();
                }
                self.set_task_mode();
                none
            }
            Action::MaximizeTopPane => {
                if self.panel_size.is_maximized() {
                    self.restore_top_pane();
                } else {
                    self.maximize_top_pane();
                }
                none
            }
            _ => { self.restore_top_pane(); none }
        }
    }

    /// A chart, cell-edit or caret action.
    fn edit_action(&mut self, action: &Action) -> (fx: Effects)
        requires
            old(self).wf(),
            is_edit_action(*action),
            cycle_fits_action(old(self).model(), *action),
        ensures
            final(self).wf(),
            (final(self).model(), fx) == edit_action_of(old(self).model(), *action),
    {
        let none = effects(false, false);
        let table = Effects { for_task_table: true, ..none };
        match action {
            Action::GanttZoomFit => { self.tasks.gantt_fit(); none }
            Action::GanttOrderMoveUp => { self.tasks.gantt_order_move(MoveTo::Up); none }
            Action::GanttOrderMoveDown => { self.tasks.gantt_order_move(MoveTo::Down); none }
            Action::GanttOrderMoveTop => { self.tasks.gantt_order_move(MoveTo::Top); none }
            Action::GanttOrderMoveBottom => { self.tasks.gantt_order_move(MoveTo::Bottom); none }
            Action::GanttOrderCommit => {
                self.tasks.gantt_dialog_commit();
                self.mode = Mode::Gantt;
                Effects { persist_gantt_colors: true, ..none }
            }
            Action::GanttOrderCancel => {
                self.tasks.gantt_dialog_cancel();
                self.mode = Mode::Gantt;
                none
            }
            Action::GanttOpenOrder => {
                self.mode = Mode::GanttOrder;
                table
            }
            Action::CancelTaskEdit => {
                self.tasks.cancel_cell_edit();
                self.set_task_mode();
                none
            }
            Action::TaskEditCycleValue(d) => { self.tasks.cell_edit_cycle_value(*d); none }
            Action::TaskEditClear => { self.tasks.cell_edit_clear(); none }
            Action::TextCaretWordBack => { self.move_text_caret(TextOp::MoveWord(-1)); none }
            Action::TextCaretWordForward => { self.move_text_caret(TextOp::MoveWord(1)); none }
            Action::TextCaretStart => { self.move_text_caret(TextOp::JumpStart); none }
            Action::TextCaretEnd => { self.move_text_caret(TextOp::JumpEnd); none }
            _ => table,
        }
    }

    /// Any other action.
    fn other_action(&mut self, action: &Action) -> (fx: Effects)
        requires
            old(self).wf(),
            dialog_cursor_fits(old(self).model(), *action),
        ensures
            final(self).wf(),
            (final(self).model(), fx) == other_action_of(old(self).model(), *action),
    {
        let none = effects(false, false);
        let gantt_order = self.mode == Mode::GanttOrder;
        // The dialog is a list of its own, so the cursor keys drive it
        // rather than the rows underneath.
        if gantt_order && *action == Action::MoveUp {
            self.tasks.gantt_dialog_move_cursor(-1);
            return none;
        }
        if gantt_order && *action == Action::MoveDown {
            self.tasks.gantt_dialog_move_cursor(1);
            return none;
        }
        let visible = self.tasks.visible();
        if *action == Action::ScrollLeft && visible {
            self.tasks.scroll_left();
            return none;
        }
        if *action == Action::ScrollRight && visible {
            self.tasks.scroll_right();
            return none;
        }
        let persist = *action == Action::ToggleStarredSelected || *action == Action::ToggleHiddenSelected;
        let mode = self.mode;
        let e = if mode == Mode::Project || mode == Mode::ProjectSearch {
            let _ = self.projects.apply_action(action);
            if *action == Action::StartSearch && mode == Mode::Project {
                self.set_project_search_mode();
            } else if *action == Action::ClearSearch && mode == Mode::ProjectSearch {
                self.set_project_mode();
            }
            effects(false, true)
        } else {
            match table_action(action) {
                Some(ta) if !self.tasks.filter_panel_visible() => {
                    let _ = self.table.apply(ta, &[]);
                    effects(false, true)
                },
                _ => Effects { for_task_table: true, ..effects(false, true) },
            }
        };
        if persist {
            self.project_visibility = self.projects.visibility_preferences();
            Effects { persist_project_visibility: true, ..e }
        } else {
            e
        }
    }

    /// Carries out an action. The application's own commands come back as
    /// they are; whatever else the action leaves to do comes back as
    /// effects. A filter picker opens on the day it is opened.
    #[verifier::rlimit(40)]
    pub fn handle_action(&mut self, action: &Action) -> (r: (Option<AppCommand>, Effects))
        requires
            old(self).wf(),
            action_fits(old(self).model(), *action),
        ensures
            final(self).wf(),
            exists|today: (int, int, int)| crate::date::valid_ymd(today) && #[trigger] action_of(old(self).model(), *action, today) == (final(self).model(), r.0, r.1),
    {
        let ghost m = self.model();
        let command = action.as_app_command();
        if command.is_some() {
            assert(action_of(m, *action, (1970, 1, 1)) == (self.model(), command, no_effects()));
            return (command, effects(false, false));
        }
        if is_filter(action) {
            let fx = self.filter_action(action);
            let ghost today = choose|d: (int, int, int)| crate::date::valid_ymd(d) && #[trigger] filter_action_of(m, *action, d) == (self.model(), fx);
            assert(action_of(m, *action, today) == (self.model(), None::<AppCommand>, fx));
            return (None, fx);
        }
        let fx = if is_set(action) {
            self.set_action(action)
        } else if is_mode(action) {
            self.mode_action(action)
        } else if is_edit(action) {
            self.edit_action(action)
        } else {
            self.other_action(action)
        };
        assert(action_of(m, *action, (1970, 1, 1)) == (self.model(), None::<AppCommand>, fx));
        (None, fx)
    }
    #[verifier::rlimit(40)]
    fn route_bound(&mut self, key: KeyPress, action: Action) -> (r: (Option<AppCommand>, Effects))
        requires
            old(self).wf(),
            has_row(old(self).model().tasks.filter) ==> row_of(old(self).model().tasks.filter).label_options.len() <= i32::MAX,
            action_fits(old(self).model(), action),
        ensures
            final(self).wf(),
            exists|today: (int, int, int)| crate::date::valid_ymd(today) && #[trigger] bound_route_of(old(self).model(), key, action, today) == (final(self).model(), r.0, r.1),
    {
        let ghost m0 = self.model();
        let none = effects(false, false);
        if (action == Action::TaskEditClear || matches!(action, Action::TaskEditCycleValue(_)))
            && self.mode == Mode::TaskEdit && !self.tasks.cell_edit_is_options() && !key.modified() {
            let _ = self.handle_task_edit_input(key);
            assert(bound_route_of(m0, key, action, (1970, 1, 1)) == (self.model(), None::<AppCommand>, no_effects()));
            return (None, none);
        }
        if action == Action::FilterMoveLabelLeft || action == Action::FilterMoveLabelRight
            || action == Action::FilterCycleLabelDown || action == Action::FilterCycleLabelUp
            || action == Action::FilterAddLabel || action == Action::FilterDeleteLabel {
            let _ = self.handle_filter_field_input(key, Some(action));
            assert(bound_route_of(m0, key, action, (1970, 1, 1)) == (self.model(), None::<AppCommand>, no_effects()));
            return (None, none);
        }
        let r = self.handle_action(&action);
        let ghost today = choose|d: (int, int, int)| crate::date::valid_ymd(d) && #[trigger] action_of(m0, action, d) == (self.model(), r.0, r.1);
        assert(bound_route_of(m0, key, action, today) == (self.model(), r.0, r.1));
        r
    }

    fn route_typed(&mut self, key: KeyPress)
        requires
            old(self).wf(),
        ensures
            final(self).wf(),
            final(self).model() == typed_route_of(old(self).model(), key),
    {
        if self.handle_calendar_input(key) {
            return;
        }
        if self.handle_task_edit_input(key) {
            return;
        }
        if self.tasks.filter_panel_visible() && self.handle_filter_field_input_typed(key) {
            return;
        }
        if self.projects.search_active() {
            let _ = self.handle_project_search_input(key);
        }
    }

    /// A key typed into a filter row, with no action bound to it.
    fn handle_filter_field_input_typed(&mut self, key: KeyPress) -> (r: bool)
        requires
            old(self).wf(),
        ensures
            final(self).wf(),
            (final(self).model(), r) == filter_input_of(old(self).model(), key, None),
    {
        if !self.tasks.filter_panel_editing() {
            return false;
        }
        if key.code == KeyCode::Backspace {
            self.tasks.filter_pop_char();
            return true;
        }
        let mut handled = false;
        match key.code {
            KeyCode::Char(c) => {
                if !key.modified() {
                    self.tasks.filter_push_char(c);
                    handled = true;
                }
            }
            _ => {}
        }
        handled
    }

    #[verifier::rlimit(40)]
    fn handle_key_event_inner(&mut self, key: KeyPress, bound: Option<Action>) -> (r: (Option<AppCommand>, Effects))
        requires
            old(self).wf(),
            key_fits(old(self).model(), key, bound),
        ensures
            final(self).wf(),
            exists|today: (int, int, int)| crate::date::valid_ymd(today) && #[trigger] key_inner_of(old(self).model(), key, bound, today) == (final(self).model(), r.0, r.1),
    {
        let ghost m = self.model();
        if key.code == KeyCode::Char('c') && key.ctrl {
            assert(key_inner_of(m, key, bound, (1970, 1, 1)) == (self.model(), Some(AppCommand::Quit), no_effects()));
            return (Some(AppCommand::Quit), effects(false, false));
        }
        // Ahead of the bindings: the prompt owns every key while it is
        // shown, so an unbound letter types rather than acting.
        if self.mode == Mode::FilterSetName {
            let (took, fx) = self.handle_filter_set_name_input(key);
            if took {
                assert(key_inner_of(m, key, bound, (1970, 1, 1)) == (self.model(), None::<AppCommand>, fx));
                return (None, fx);
            }
        }
        let ghost m0 = self.model();
        assert(m0 == key_start(m, key));
        match bound {
            Some(action) => {
                let r = self.route_bound(key, action);
                let ghost today = choose|d: (int, int, int)| crate::date::valid_ymd(d) && #[trigger] bound_route_of(m0, key, action, d) == (self.model(), r.0, r.1);
                assert(key_inner_of(m, key, bound, today) == (self.model(), r.0, r.1));
                r
            }
            None => {
                self.route_typed(key);
                assert(key_inner_of(m, key, bound, (1970, 1, 1)) == (self.model(), None::<AppCommand>, no_effects()));
                (None, effects(false, false))
            }
        }
    }

    /// Reads a key: the sidebar's prompt first, then the action the key
    /// bindings give for it in the session's mode (`bound`), then whatever
    /// is being typed into. Once no more keys are waiting, the bound panel
    /// is written back to its entry, so a burst of typing is one write.
    #[verifier::rlimit(40)]
    pub fn handle_key_event(&mut self, key: KeyPress, bound: Option<Action>) -> (r: (Option<AppCommand>, Effects))
        requires
            old(self).wf(),
            key_fits(old(self).model(), key, bound),
        ensures
            final(self).wf(),
            exists|today: (int, int, int)| crate::date::valid_ymd(today) && #[trigger] key_of(old(self).model(), key, bound, today) == (final(self).model(), r.0, r.1),
    {
        let ghost m = self.model();
        let r = self.handle_key_event_inner(key, bound);
        let ghost today = choose|d: (int, int, int)| crate::date::valid_ymd(d) && #[trigger] key_inner_of(m, key, bound, d) == (self.model(), r.0, r.1);
        if !self.tasks.input_pending() {
            let write = self.sync_named_filter_set();
            let fx = Effects { write_config: r.1.write_config || write, ..r.1 };
            assert(key_of(m, key, bound, today) == (self.model(), r.0, fx));
            return (r.0, fx);
        }
        assert(key_of(m, key, bound, today) == (self.model(), r.0, r.1));
        r
    }
    /// Notes a batch of task writes sent: the report of the last burst goes.
    /// The writes themselves, and the local edits they carry, are the
    /// caller's.
    pub fn note_task_edits_sent(&mut self, count: usize)
        requires
            old(self).wf(),
            old(self).model().edits.sent + count <= usize::MAX,
            old(self).model().edits.outstanding + count <= usize::MAX,
        ensures
            final(self).wf(),
            final(self).model() == edits_sent_of(old(self).model(), count as int),
    {
        if count == 0 {
            return;
        }
        self.tasks.clear_edit_notice();
        self.task_edits_sent = self.task_edits_sent + count;
        self.task_edits_outstanding = self.task_edits_outstanding + count;
    }

    /// Takes in one task write's reply: `None` when it succeeded, else the
    /// error. Once the last reply of a burst is in, failures are reported
    /// once, as how many of how many could not be written and the last
    /// error. Confirming a success and rolling back a failure on the table
    /// are the caller's.
    pub fn reconcile_task_edit(&mut self, error: Option<&str>)
        requires
            old(self).wf(),
            old(self).model().edits.failures < usize::MAX,
        ensures
            final(self).wf(),
            final(self).model() == edit_reply_of(old(self).model(), match error { Some(e) => Some(e@), None => None }),
    {
        self.task_edits_outstanding = if self.task_edits_outstanding > 0 { self.task_edits_outstanding - 1 } else { 0 };
        match error {
            Some(e) => {
                self.task_edit_failures = self.task_edit_failures + 1;
                self.task_edit_error = Some(string_from_chars(&chars_of(e)));
            }
            None => {}
        }
        if self.task_edits_outstanding > 0 {
            return;
        }
        if self.task_edit_failures > 0 {
            let mut message = String::new();
            push_str(&mut message, "could not update ");
            push_decimal(&mut message, self.task_edit_failures);
            push_str(&mut message, " of ");
            push_decimal(&mut message, self.task_edits_sent);
            push_str(&mut message, ": ");
            match &self.task_edit_error {
                Some(e) => push_str(&mut message, e.as_str()),
                None => push_str(&mut message, "unknown error"),
            }
            self.tasks.set_edit_notice(message.as_str());
        }
        self.task_edits_sent = 0;
        self.task_edit_failures = 0;
        self.task_edit_error = None;
    }
    /// The projects whose tasks the pane shows: the selected ones, in the
    /// list's order, or else the one under the cursor.
    pub fn task_target_projects(&self) -> (r: Vec<Project>)
        requires
            self.wf(),
        ensures
            projects_view(r@) == targets_of(self.model().projects),
    {
        let chosen_ones = self.projects.selected_projects();
        if chosen_ones.len() > 0 {
            return chosen_ones;
        }
        let mut out: Vec<Project> = Vec::new();
        match self.projects.selected_project() {
            Some(p) => {
                out.push(p.clone());
                assert(projects_view(out@) =~= seq![p@]);
            }
            None => {
                assert(projects_view(out@) =~= Seq::<ProjectView>::empty());
            }
        }
        out
    }

    /// Takes one reply of a task-data request. A reply to an older request
    /// is passed over. The last reply ends the load; a failed one records
    /// the error and ends the reading; a project's data is handed back to
    /// be merged.
    pub fn receive_task_reply(&mut self, reply: &TaskDataReply) -> (r: PollStep)
        requires
            old(self).wf(),
        ensures
            final(self).wf(),
            (final(self).model(), r) == reply_of(old(self).model(), reply@),
    {
        if reply.generation != self.task_data_generation {
            return PollStep::Stale;
        }
        if reply.done {
            self.tasks.finish_loading_targets();
            return PollStep::Finished;
        }
        if reply.project_id.is_none() {
            return PollStep::Skipped;
        }
        match &reply.error {
            Some(e) => {
                self.tasks.set_error(e.as_str());
                PollStep::Failed
            },
            None => PollStep::Ingest,
        }
    }

    /// Decides a task fetch, given the ids of the targets the cache already
    /// covers for the query the filters ask for. A fetch begins a new
    /// request and puts the pane into its loading state; the request
    /// itself is the caller's to send, with the generation it is tagged by.
    pub fn plan_task_fetch(&mut self, covered: &[String]) -> (r: FetchPlan)
        requires
            old(self).wf(),
        ensures
            final(self).wf(),
            (final(self).model(), r@) == fetch_plan_of(old(self).model(), strings_view(covered@)),
    {
        let targets = self.task_target_projects();
        if targets.len() == 0 {
            self.tasks.finish_loading_targets();
            return FetchPlan::NoTargets;
        }
        let ghost tv = projects_view(targets@);
        let ghost cv = strings_view(covered@);
        let mut load: Vec<Project> = Vec::new();
        let mut i: usize = 0;
        while i < targets.len()
            invariant
                i <= targets.len(),
                tv == projects_view(targets@),
                cv == strings_view(covered@),
                projects_view(load@) == left_out(tv.take(i as int), cv),
            decreases targets.len() - i,
        {
            if !holds_id(covered, &targets[i].id) {
                load.push(targets[i].clone());
            }
            i += 1;
            assert(tv.take(i as int).drop_last() =~= tv.take(i - 1));
            assert(projects_view(load@) =~= left_out(tv.take(i as int), cv));
        }
        assert(tv.take(targets.len() as int) =~= tv);
        if load.len() == 0 {
            self.tasks.begin_loading(targets.as_slice());
            self.tasks.finish_loading_targets();
            return FetchPlan::Cached;
        }
        self.task_data_generation = if self.task_data_generation == u64::MAX { 0 } else { self.task_data_generation + 1 };
        self.tasks.begin_loading(targets.as_slice());
        FetchPlan::Fetch { generation: self.task_data_generation, projects: load }
    }

    /// Takes in the projects listed again for a refresh. Nothing the task
    /// pane holds counts as cached any more, and a request still in flight
    /// (`in_flight`) is made stale. A drawn pane then fetches its tasks
    /// afresh, which the plan handed back says; a hidden one says it is
    /// out of date. A listing error is recorded and handed back, and
    /// nothing else changes.
    pub fn refresh(&mut self, listed: Result<Vec<Project>, Error>, in_flight: bool) -> (r: (Result<(), Error>, Option<FetchPlan>))
        requires
            old(self).wf(),
        ensures
            final(self).wf(),
            match listed {
                Ok(ps) => r.0 is Ok && if old(self).model().tasks.visible {
                    r.1 matches Some(plan) && (final(self).model(), plan@)
                        == fetch_plan_of(relisted(old(self).model(), projects_view(ps@), in_flight), Seq::empty())
                } else {
                    r.1 is None && final(self).model() == ({
                        let m1 = relisted(old(self).model(), projects_view(ps@), in_flight);
                        with_tasks(m1, out_of_date(m1.tasks))
                    })
                },
                Err(e) => r.0 == Err::<(), Error>(e) && r.1 is None && final(self).model() == (AppModel {
                    projects: failed(old(self).model().projects, e),
                    ..old(self).model()
                }),
            },
    {
        let received = self.receive_projects(listed);
        if received.is_err() {
            return (received, None);
        }
        self.tasks.invalidate_cache();
        if in_flight {
            self.task_data_generation = if self.task_data_generation == u64::MAX { 0 } else { self.task_data_generation + 1 };
        }
        if self.tasks.visible() {
            let nothing: Vec<String> = Vec::new();
            assert(strings_view(nothing@) =~= Seq::<Seq<char>>::empty());
            let plan = self.plan_task_fetch(nothing.as_slice());
            (received, Some(plan))
        } else {
            self.tasks.mark_out_of_date("refreshed; switch to task view to reload");
            (received, None)
        }
    }
}

} // verus!
