//! The task pane's session state: whether it is drawn, where it is
//! scrolled, how loading stands, the Gantt chart beside it, the cell edit
//! that is open, and the notices it shows.

use vstd::prelude::*;
use crate::gantt::{GanttConfig, GanttModel, GanttViewState, MoveTo, config_model, move_value_of};
use crate::cell_open::{EditField, FieldView, open_editor, opened_editor};
use crate::records::{RecordView, TaskRecord};
use crate::date::CivilDate;
use crate::task_edit::{CellEditModel, EditorView, TaskCellEditState, cleared, cycled, cycle_fits, strings_view, text_edited};
use crate::text_edit::TextOp;
use crate::autocomplete::{Candidate, Unresolved};
use crate::filter::{FieldReading, ReadingView, SavedFilterSet, TaskFieldFilterKind, TaskFieldStringMode, filter_accepts, readings};
use crate::filter_edit::{count_active, saved_rows};
use crate::filter_panel as fp;
use crate::project_list::{Project, ProjectView, projects_view};
use crate::filter_panel::{
    PanelView, SidebarPrompt, TaskFilterEditorState, has_row, marked, panel_rows, prepared_sets, row_of, with_row,
};

verus! {

/// How far one sideways scroll moves the table, in cells.
pub const HORIZONTAL_SCROLL_STEP: usize = 8;

/// Where loading the tasks stands.
#[derive(Debug, PartialEq, Eq)]
pub enum TaskStatus {
    Idle,
    Loading,
    Ready,
    OutOfDate(String),
    Empty,
    Error(String),
}

/// Where loading stands, as plain values.
pub enum TaskStatusView {
    Idle,
    Loading,
    Ready,
    OutOfDate(Seq<char>),
    Empty,
    Error(Seq<char>),
}

impl View for TaskStatus {
    type V = TaskStatusView;

    open spec fn view(&self) -> TaskStatusView {
        match self {
            TaskStatus::Idle => TaskStatusView::Idle,
            TaskStatus::Loading => TaskStatusView::Loading,
            TaskStatus::Ready => TaskStatusView::Ready,
            TaskStatus::OutOfDate(m) => TaskStatusView::OutOfDate(m@),
            TaskStatus::Empty => TaskStatusView::Empty,
            TaskStatus::Error(m) => TaskStatusView::Error(m@),
        }
    }
}

impl Default for TaskStatus {
    fn default() -> (r: TaskStatus)
        ensures
            r@ == TaskStatusView::Idle,
    {
        TaskStatus::Idle
    }
}

/// An optional text as plain values.
pub open spec fn opt_chars(o: Option<String>) -> Option<Seq<char>> {
    match o {
        Some(s) => Some(s@),
        None => None,
    }
}

/// The task pane as plain values.
pub struct TaskModel {
    pub visible: bool,
    pub help_details_visible: bool,
    pub horizontal_scroll: int,
    pub vertical_scroll: int,
    pub gantt: GanttModel,
    pub cell_edit: Option<CellEditModel>,
    pub edit_notice: Option<Seq<char>>,
    pub input_pending: bool,
    pub current_user_gid: Option<Seq<char>>,
    pub status: TaskStatusView,
    /// The projects being loaded, by name; empty when nothing is in flight.
    pub loading_targets: Seq<Seq<char>>,
    /// The same projects, by id.
    pub loading_ids: Seq<Seq<char>>,
    /// The projects the loaded tasks came from, by id.
    pub loaded_target_ids: Seq<Seq<char>>,
    /// The filter panel.
    pub filter: PanelView,
    /// The first filter row drawn.
    pub filter_scroll: int,
}

/// The task pane's state.
#[derive(Debug)]
pub struct TaskState {
    visible: bool,
    help_details_visible: bool,
    horizontal_scroll: usize,
    task_vertical_scroll: usize,
    gantt: GanttViewState,
    cell_edit: Option<TaskCellEditState>,
    edit_notice: Option<String>,
    input_pending: bool,
    current_user_gid: Option<String>,
    status: TaskStatus,
    loading_targets: Vec<String>,
    loading_ids: Vec<String>,
    loaded_target_ids: Vec<String>,
    filter_editor: TaskFilterEditorState,
    filter_vertical_scroll: usize,
}

/// A cell edit begun: the notice goes; with no task under the cursor, or
/// a cell that cannot be edited, nothing opens and the reason comes back;
/// otherwise the editor opens on the column for the targets.
pub open spec fn cell_edit_begun_of(
    m: TaskModel,
    field: FieldView,
    record: Option<RecordView>,
    current: Seq<char>,
    column: int,
    targets: Seq<Seq<char>>,
    today: (int, int, int),
) -> (TaskModel, Result<(), Seq<char>>) {
    let quiet = TaskModel { edit_notice: None, ..m };
    match record {
        None => (quiet, Err("no task under the cursor"@)),
        Some(rec) => match opened_editor(field, rec, current, targets.len() as int, today) {
            Ok(e) => (
                TaskModel {
                    cell_edit: Some(CellEditModel { column, targets, editor: e, window_start: 0 }),
                    ..quiet
                },
                Ok(()),
            ),
            Err(message) => (quiet, Err(message)),
        },
    }
}

/// What the filter panel's keys do while it is open.
#[derive(Clone, Copy, Debug, PartialEq, Eq, Structural)]
pub enum PanelAction {
    MoveUp,
    MoveDown,
    PageUp,
    PageDown,
    ToggleVisible,
    ClearRow,
    AddSet,
    RemoveSet,
    NextSet,
    PreviousSet,
    RequireEmpty,
    NegateField,
    NegateSet,
    CycleMode,
    SetMode(TaskFieldStringMode),
}

/// A filter panel key carried out on the pane.
pub open spec fn panel_action_of(m: TaskModel, a: PanelAction, page_size: int) -> TaskModel {
    let p = m.filter;
    match a {
        PanelAction::MoveUp => with_filter(m, fp::reset_query_caret_of(fp::move_up_of(p))),
        PanelAction::MoveDown => with_filter(m, fp::reset_query_caret_of(fp::move_down_of(p))),
        PanelAction::PageUp => with_filter(m, fp::page_up_of(p, page_size as usize)),
        PanelAction::PageDown => with_filter(m, fp::page_down_of(p, page_size as usize)),
        PanelAction::ToggleVisible => with_filter(m, PanelView { visible: !p.visible, editing: p.editing && !p.visible, ..p }),
        PanelAction::ClearRow => with_filter(m, marked(fp::clear_current_of(p))),
        PanelAction::AddSet => with_filter(m, marked(fp::add_set_of(p))),
        PanelAction::RemoveSet => with_filter(m, marked(fp::remove_set_of(p))),
        PanelAction::NextSet => with_filter(m, marked(fp::select_set_of(p, 1i32))),
        PanelAction::PreviousSet => with_filter(m, marked(fp::select_set_of(p, -1i32))),
        PanelAction::RequireEmpty => with_filter(m, if has_row(p) && row_of(p).can_be_empty {
            marked(PanelView { calendar: None, ..with_row(p, fp::toggled_empty(row_of(p))) })
        } else {
            p
        }),
        PanelAction::NegateField => with_filter(m, if has_row(p) {
            marked(fp::on_row(p, |f: crate::filter::FieldView| crate::filter::FieldView { negated: !f.negated, ..f }))
        } else {
            p
        }),
        PanelAction::NegateSet => with_filter(m, if 0 <= p.active < p.sets.len() {
            marked(PanelView {
                sets: p.sets.update(p.active, crate::filter::SetView { negated: !p.sets[p.active].negated, ..p.sets[p.active] }),
                ..p
            })
        } else {
            p
        }),
        PanelAction::CycleMode => with_filter(m, marked(fp::cycle_mode_of(p))),
        PanelAction::SetMode(mode) => with_filter(m, marked(fp::set_mode_of(p, mode))),
    }
}

/// What the pane reports once its table holds `task_count` tasks.
pub open spec fn settled_status(s: TaskStatusView, task_count: int) -> TaskStatusView {
    match s {
        TaskStatusView::OutOfDate(_) | TaskStatusView::Error(_) | TaskStatusView::Loading => s,
        _ => if task_count == 0 { TaskStatusView::Empty } else { TaskStatusView::Ready },
    }
}

/// A hidden, idle pane with the chart in its default state, as plain values.
pub open spec fn fresh_task_model() -> TaskModel {
    TaskModel {
        visible: false,
        help_details_visible: false,
        horizontal_scroll: 0,
        vertical_scroll: 0,
        gantt: GanttModel { visible: false, columns: 2, key: "assignee"@, order: Seq::empty(), timeline: None, dialog: None },
        cell_edit: None,
        edit_notice: None,
        input_pending: false,
        current_user_gid: None,
        status: TaskStatusView::Idle,
        loading_targets: Seq::empty(),
        loading_ids: Seq::empty(),
        loaded_target_ids: Seq::empty(),
        filter: TaskFilterEditorState::new_view(),
        filter_scroll: 0,
    }
}

/// The projects' names.
pub open spec fn project_names(ps: Seq<ProjectView>) -> Seq<Seq<char>>
    decreases ps.len(),
{
    if ps.len() == 0 { Seq::empty() } else { project_names(ps.drop_last()).push(ps.last().1) }
}

/// The projects' ids.
pub open spec fn project_ids(ps: Seq<ProjectView>) -> Seq<Seq<char>>
    decreases ps.len(),
{
    if ps.len() == 0 { Seq::empty() } else { project_ids(ps.drop_last()).push(ps.last().0) }
}

/// The pane loading the tasks of these projects.
pub open spec fn loading_begun(m: TaskModel, ps: Seq<ProjectView>) -> TaskModel {
    TaskModel { status: TaskStatusView::Loading, loading_targets: project_names(ps), loading_ids: project_ids(ps), ..m }
}

/// The pane once a load has finished: nothing in flight, the projects asked
/// for recorded as loaded, the table back at its start.
pub open spec fn loading_finished(m: TaskModel) -> TaskModel {
    TaskModel {
        horizontal_scroll: 0,
        vertical_scroll: 0,
        loaded_target_ids: m.loading_ids,
        loading_targets: Seq::empty(),
        loading_ids: Seq::empty(),
        status: TaskStatusView::Idle,
        ..m
    }
}

/// The table scrolled a step left, stopping at the first column.
pub open spec fn scrolled_left(m: TaskModel) -> TaskModel {
    TaskModel {
        horizontal_scroll: if m.horizontal_scroll < HORIZONTAL_SCROLL_STEP { 0 } else { m.horizontal_scroll - HORIZONTAL_SCROLL_STEP },
        ..m
    }
}

/// The table scrolled a step right, stopping at the largest offset.
pub open spec fn scrolled_right(m: TaskModel) -> TaskModel {
    TaskModel {
        horizontal_scroll: if m.horizontal_scroll > usize::MAX - HORIZONTAL_SCROLL_STEP { usize::MAX as int } else {
            m.horizontal_scroll + HORIZONTAL_SCROLL_STEP
        },
        ..m
    }
}

/// The filter picker opened on the row under the cursor, on `today`, with
/// the row's require-empty dropped and the row being edited.
pub open spec fn calendar_begun(m: TaskModel, today: (int, int, int)) -> TaskModel {
    with_filter(m, PanelView {
        calendar: Some(crate::calendar::open_of(row_of(m.filter).label, row_of(m.filter).value.0, today, true)),
        editing: true,
        ..with_row(m.filter, crate::filter::FieldView { empty_required: false, ..row_of(m.filter) })
    })
}

/// The filter picker's date normalised into its row, and the picker closed.
pub open spec fn calendar_committed(m: TaskModel) -> TaskModel {
    with_filter(m, PanelView {
        calendar: None,
        ..marked(match m.filter.calendar {
            Some(c) => fp::synced_calendar(PanelView {
                calendar: Some(crate::calendar::step_of(c, crate::calendar::CalendarStep::Normalize)),
                ..m.filter
            }),
            None => m.filter,
        })
    })
}

/// The pane with the open cell edit changed as `f` says, when one is open.
pub open spec fn with_cell_edit(m: TaskModel, editor: spec_fn(EditorView) -> EditorView) -> TaskModel {
    match m.cell_edit {
        Some(e) => TaskModel { cell_edit: Some(CellEditModel { editor: editor(e.editor), ..e }), ..m },
        None => m,
    }
}

impl TaskState {
    /// The pane as plain values.
    pub closed spec fn model(&self) -> TaskModel {
        TaskModel {
            visible: self.visible,
            help_details_visible: self.help_details_visible,
            horizontal_scroll: self.horizontal_scroll as int,
            vertical_scroll: self.task_vertical_scroll as int,
            gantt: self.gantt.model(),
            cell_edit: match self.cell_edit {
                Some(e) => Some(e.model()),
                None => None,
            },
            edit_notice: opt_chars(self.edit_notice),
            input_pending: self.input_pending,
            current_user_gid: opt_chars(self.current_user_gid),
            status: self.status@,
            loading_targets: strings_view(self.loading_targets@),
            loading_ids: strings_view(self.loading_ids@),
            loaded_target_ids: strings_view(self.loaded_target_ids@),
            filter: self.filter_editor@,
            filter_scroll: self.filter_vertical_scroll as int,
        }
    }

    /// A hidden, idle pane with the chart in its default state.
    pub fn new() -> (r: TaskState)
        ensures
            r.model() == fresh_task_model(),
            ({
                let m = r.model();
                &&& !m.visible && !m.help_details_visible
                &&& m.horizontal_scroll == 0 && m.vertical_scroll == 0
                &&& m.gantt == (GanttModel { visible: false, columns: 2, key: "assignee"@, order: Seq::empty(), timeline: None, dialog: None })
                &&& m.cell_edit is None && m.edit_notice is None
                &&& !m.input_pending && m.current_user_gid is None
                &&& m.status == TaskStatusView::Idle
                &&& m.loading_targets.len() == 0 && m.loaded_target_ids.len() == 0
                &&& m.filter == TaskFilterEditorState::new_view()
                &&& m.filter_scroll == 0
            }),
    {
        let r = TaskState {
            visible: false,
            help_details_visible: false,
            horizontal_scroll: 0,
            task_vertical_scroll: 0,
            gantt: GanttViewState::default(),
            cell_edit: None,
            edit_notice: None,
            input_pending: false,
            current_user_gid: None,
            status: TaskStatus::Idle,
            loading_targets: Vec::new(),
            loading_ids: Vec::new(),
            loaded_target_ids: Vec::new(),
            filter_editor: TaskFilterEditorState::new(),
            filter_vertical_scroll: 0,
        };
        assert(r.model().loading_targets =~= Seq::empty());
        assert(r.model().loading_ids =~= Seq::empty());
        assert(r.model().loaded_target_ids =~= Seq::empty());
        r
    }

    /// Whether the pane is drawn.
    pub fn visible(&self) -> (r: bool)
        ensures
            r == self.model().visible,
    {
        self.visible
    }

    /// Draws or hides the pane.
    pub fn set_visible(&mut self, visible: bool)
        ensures
            final(self).model() == (TaskModel { visible, ..old(self).model() }),
    {
        self.visible = visible;
    }

    /// Draws the pane if it is hidden, hides it if it is drawn.
    pub fn toggle_visible(&mut self)
        ensures
            final(self).model() == (TaskModel { visible: !old(self).model().visible, ..old(self).model() }),
    {
        let v = !self.visible;
        self.set_visible(v);
    }

    /// Whether the key help shows its details.
    pub fn help_details_visible(&self) -> (r: bool)
        ensures
            r == self.model().help_details_visible,
    {
        self.help_details_visible
    }

    /// Shows or hides the key help's details.
    pub fn toggle_help_details(&mut self)
        ensures
            final(self).model() == (TaskModel { help_details_visible: !old(self).model().help_details_visible, ..old(self).model() }),
    {
        self.help_details_visible = !self.help_details_visible;
    }

    /// Seeds the chart's state from configuration.
    pub fn apply_gantt_config(&mut self, config: &GanttConfig)
        ensures
            final(self).model() == (TaskModel { gantt: final(self).model().gantt, ..old(self).model() }),
            final(self).model().gantt == config_model(*config),
    {
        self.gantt = GanttViewState::from_config(config);
    }

    /// The chart's state, for the renderer.
    pub fn gantt(&self) -> (r: &GanttViewState)
        ensures
            r.model() == self.model().gantt,
    {
        &self.gantt
    }

    /// Returns the timeline to fitting the loaded tasks.
    pub fn gantt_fit(&mut self)
        ensures
            final(self).model() == (TaskModel { gantt: GanttModel { timeline: None, ..old(self).model().gantt }, ..old(self).model() }),
    {
        self.gantt.fit_timeline();
    }

    /// Moves the colour dialog's selected value.
    pub fn gantt_order_move(&mut self, to: MoveTo)
        ensures
            final(self).model() == (TaskModel { gantt: move_value_of(old(self).model().gantt, to), ..old(self).model() }),
    {
        self.gantt.dialog_move_value(to);
    }

    /// Draws or hides the chart.
    pub fn set_gantt_visible(&mut self, visible: bool)
        ensures
            final(self).model() == (TaskModel { gantt: GanttModel { visible, ..old(self).model().gantt }, ..old(self).model() }),
    {
        self.gantt.set_visible(visible);
    }

    /// Draws the chart if it is hidden, hides it if it is drawn.
    pub fn toggle_gantt_visible(&mut self)
        ensures
            final(self).model() == (TaskModel {
                gantt: GanttModel { visible: !old(self).model().gantt.visible, ..old(self).model().gantt },
                ..old(self).model()
            }),
    {
        self.gantt.toggle_visible();
    }

    /// Moves the colour dialog's cursor, held to its entries.
    pub fn gantt_dialog_move_cursor(&mut self, delta: isize)
        requires
            old(self).model().gantt.dialog matches Some(d) ==> d.selected + delta <= isize::MAX,
        ensures
            final(self).model() == (TaskModel { gantt: crate::gantt::cursor_move_of(old(self).model().gantt, delta as int), ..old(self).model() }),
    {
        self.gantt.dialog_move_cursor(delta);
    }

    /// Opens the colour dialog over the current dimension's values, each
    /// with how many tasks carry it, as the table counts them.
    pub fn gantt_open_dialog(&mut self, values: Vec<(String, usize)>)
        ensures
            final(self).model() == (TaskModel {
                gantt: crate::gantt::open_of(old(self).model().gantt, crate::gantt::values_view(values@)),
                ..old(self).model()
            }),
    {
        self.gantt.open_dialog(values);
    }

    /// Closes the colour dialog, keeping the order it now shows.
    pub fn gantt_dialog_commit(&mut self)
        ensures
            final(self).model() == (TaskModel { gantt: GanttModel { dialog: None, ..old(self).model().gantt }, ..old(self).model() }),
    {
        self.gantt.dialog_commit();
    }

    /// Closes the colour dialog, putting back the order it opened with.
    pub fn gantt_dialog_cancel(&mut self)
        ensures
            final(self).model() == (TaskModel { gantt: crate::gantt::cancel_of(old(self).model().gantt), ..old(self).model() }),
    {
        self.gantt.dialog_cancel();
    }

    /// The last edit failure or refusal.
    pub fn edit_notice(&self) -> (r: Option<&str>)
        ensures
            match r {
                Some(s) => self.model().edit_notice == Some(s@),
                None => self.model().edit_notice is None,
            },
    {
        match &self.edit_notice {
            Some(s) => Some(s.as_str()),
            None => None,
        }
    }

    /// Shows a notice about the last edit.
    pub fn set_edit_notice(&mut self, message: &str)
        ensures
            final(self).model() == (TaskModel { edit_notice: Some(message@), ..old(self).model() }),
    {
        self.edit_notice = Some(message.to_string());
    }

    /// Takes the edit notice down.
    pub fn clear_edit_notice(&mut self)
        ensures
            final(self).model() == (TaskModel { edit_notice: None, ..old(self).model() }),
    {
        self.edit_notice = None;
    }

    /// Records whether more input is already queued behind this one.
    pub fn set_input_pending(&mut self, pending: bool)
        ensures
            final(self).model() == (TaskModel { input_pending: pending, ..old(self).model() }),
    {
        self.input_pending = pending;
    }

    /// Whether another input event is already waiting.
    pub fn input_pending(&self) -> (r: bool)
        ensures
            r == self.model().input_pending,
    {
        self.input_pending
    }

    /// Records who is logged in, for `me`.
    pub fn set_current_user_gid(&mut self, gid: Option<String>)
        ensures
            final(self).model() == (TaskModel { current_user_gid: opt_chars(gid), ..old(self).model() }),
    {
        self.current_user_gid = gid;
    }

    /// Where loading stands.
    pub fn status(&self) -> (r: &TaskStatus)
        ensures
            r@ == self.model().status,
    {
        &self.status
    }

    /// Says the loaded tasks no longer match what is asked for; an idle pane
    /// has nothing to be out of date.
    pub fn mark_out_of_date(&mut self, message: &str)
        ensures
            final(self).model() == (if old(self).model().status is Idle {
                old(self).model()
            } else {
                TaskModel {
                    status: TaskStatusView::OutOfDate(message@),
                    loading_targets: Seq::empty(),
                    loading_ids: Seq::empty(),
                    vertical_scroll: 0,
                    ..old(self).model()
                }
            }),
    {
        match self.status {
            TaskStatus::Idle => {}
            _ => {
                self.status = TaskStatus::OutOfDate(message.to_string());
                self.loading_targets = Vec::new();
                self.loading_ids = Vec::new();
                self.task_vertical_scroll = 0;
                assert(strings_view(self.loading_targets@) == Seq::<Seq<char>>::empty());
                assert(strings_view(self.loading_ids@) == Seq::<Seq<char>>::empty());
            }
        }
    }

    /// Records a failed load: nothing in flight, nothing loaded, the table
    /// back at its start.
    pub fn set_error(&mut self, message: &str)
        ensures
            final(self).model() == (TaskModel {
                status: TaskStatusView::Error(message@),
                horizontal_scroll: 0,
                vertical_scroll: 0,
                loading_targets: Seq::empty(),
                loading_ids: Seq::empty(),
                loaded_target_ids: Seq::empty(),
                ..old(self).model()
            }),
    {
        self.status = TaskStatus::Error(message.to_string());
        self.horizontal_scroll = 0;
        self.loading_targets = Vec::new();
        self.loading_ids = Vec::new();
        self.loaded_target_ids = Vec::new();
        self.task_vertical_scroll = 0;
        assert(strings_view(self.loading_ids@) == Seq::<Seq<char>>::empty());
        assert(strings_view(self.loading_targets@) == Seq::<Seq<char>>::empty());
        assert(strings_view(self.loaded_target_ids@) == Seq::<Seq<char>>::empty());
    }

    /// What the pane reports once its table has been rebuilt with
    /// `task_count` tasks: a load in flight, a failure and a notice that the
    /// tasks are out of date stand; otherwise it is empty or ready.
    pub fn settle_status(&mut self, task_count: usize)
        ensures
            final(self).model() == (TaskModel { status: settled_status(old(self).model().status, task_count as int), ..old(self).model() }),
    {
        match self.status {
            TaskStatus::OutOfDate(_) | TaskStatus::Error(_) | TaskStatus::Loading => {},
            _ => {
                self.status = if task_count == 0 { TaskStatus::Empty } else { TaskStatus::Ready };
            },
        }
    }

    /// Marks the pane as loading the tasks of these projects.
    pub fn begin_loading(&mut self, projects: &[Project])
        ensures
            final(self).model() == loading_begun(old(self).model(), projects_view(projects@)),
    {
        let mut names: Vec<String> = Vec::new();
        let mut ids: Vec<String> = Vec::new();
        let mut i: usize = 0;
        while i < projects.len()
            invariant
                i <= projects.len(),
                strings_view(names@) == project_names(projects_view(projects@.take(i as int))),
                strings_view(ids@) == project_ids(projects_view(projects@.take(i as int))),
            decreases projects.len() - i,
        {
            names.push(projects[i].name.clone());
            ids.push(projects[i].id.clone());
            i += 1;
            assert(projects_view(projects@.take(i as int)).drop_last() =~= projects_view(projects@.take(i - 1)));
            assert(strings_view(names@) =~= project_names(projects_view(projects@.take(i as int))));
            assert(strings_view(ids@) =~= project_ids(projects_view(projects@.take(i as int))));
        }
        assert(projects@.take(projects.len() as int) =~= projects@);
        self.status = TaskStatus::Loading;
        self.loading_targets = names;
        self.loading_ids = ids;
    }

    /// Ends a load once every project asked for is in: nothing is in
    /// flight, the projects loaded are the ones asked for, and the table is
    /// back at its start.
    pub fn finish_loading_targets(&mut self)
        ensures
            final(self).model() == loading_finished(old(self).model()),
    {
        let mut ids: Vec<String> = Vec::new();
        std::mem::swap(&mut ids, &mut self.loading_ids);
        self.horizontal_scroll = 0;
        self.task_vertical_scroll = 0;
        self.loaded_target_ids = ids;
        self.loading_targets = Vec::new();
        self.status = TaskStatus::Idle;
        assert(strings_view(self.loading_targets@) == Seq::<Seq<char>>::empty());
        assert(strings_view(self.loading_ids@) == Seq::<Seq<char>>::empty());
    }

    /// Forgets which projects the loaded tasks came from, so the next
    /// request loads afresh.
    pub fn invalidate_cache(&mut self)
        ensures
            final(self).model() == (TaskModel { loaded_target_ids: Seq::empty(), ..old(self).model() }),
    {
        self.loaded_target_ids = Vec::new();
        assert(strings_view(self.loaded_target_ids@) == Seq::<Seq<char>>::empty());
    }

    /// The projects being loaded, by name.
    pub fn loading_targets(&self) -> (r: &[String])
        ensures
            strings_view(r@) == self.model().loading_targets,
    {
        self.loading_targets.as_slice()
    }

    /// The projects the loaded tasks came from, by id.
    pub fn loaded_target_ids(&self) -> (r: &[String])
        ensures
            strings_view(r@) == self.model().loaded_target_ids,
    {
        self.loaded_target_ids.as_slice()
    }

    /// How far the table is scrolled sideways.
    pub fn horizontal_scroll(&self) -> (r: usize)
        ensures
            r == self.model().horizontal_scroll,
    {
        self.horizontal_scroll
    }

    /// How far the table is scrolled down.
    pub fn vertical_scroll(&self) -> (r: usize)
        ensures
            r == self.model().vertical_scroll,
    {
        self.task_vertical_scroll
    }

    /// Scrolls the table a step left, stopping at its start.
    pub fn scroll_left(&mut self)
        ensures
            final(self).model() == scrolled_left(old(self).model()),
    {
        self.horizontal_scroll = if self.horizontal_scroll < HORIZONTAL_SCROLL_STEP { 0 } else {
            self.horizontal_scroll - HORIZONTAL_SCROLL_STEP
        };
    }

    /// Scrolls the table a step right, stopping at the largest offset.
    pub fn scroll_right(&mut self)
        ensures
            final(self).model() == scrolled_right(old(self).model()),
    {
        self.horizontal_scroll = if self.horizontal_scroll > usize::MAX - HORIZONTAL_SCROLL_STEP { usize::MAX } else {
            self.horizontal_scroll + HORIZONTAL_SCROLL_STEP
        };
    }

    /// Whether the sidebar of saved filter sets is drawn.
    pub fn filter_sets_sidebar_visible(&self) -> (r: bool)
        ensures
            r == self.model().filter.sidebar_visible,
    {
        self.filter_editor.sidebar_visible()
    }

    /// The report on the sidebar's border.
    pub fn filter_sets_notice(&self) -> (r: Option<&str>)
        ensures
            match r {
                Some(s) => self.model().filter.notice == Some(s@),
                None => self.model().filter.notice is None,
            },
    {
        self.filter_editor.notice()
    }

    /// Clears the sidebar's report.
    pub fn clear_filter_sets_notice(&mut self)
        ensures
            final(self).model() == (TaskModel {
                filter: PanelView { notice: None, ..old(self).model().filter },
                ..old(self).model()
            }),
    {
        self.filter_editor.set_notice(None);
    }

    /// Reports on the sidebar, opening it so the report can be seen.
    pub fn set_filter_sets_notice(&mut self, message: &str)
        ensures
            final(self).model() == (TaskModel {
                filter: PanelView { sidebar_visible: true, notice: Some(message@), ..old(self).model().filter },
                ..old(self).model()
            }),
    {
        self.filter_editor.set_notice(Some(message.to_string()));
    }

    /// Opens an editor on the cell under the cursor. `record` is the task
    /// the cursor is on, if any, `current` what its cell reads, and
    /// `targets` the tasks the commit will apply to. Any report of an
    /// earlier edit goes either way.
    pub fn begin_cell_edit(
        &mut self,
        field: &EditField,
        record: Option<&TaskRecord>,
        current: &str,
        column: usize,
        targets: Vec<String>,
        today: CivilDate,
    ) -> (r: Result<(), String>)
        ensures
            (final(self).model(), match r { Ok(_) => Ok(()), Err(m) => Err(m@) }) == cell_edit_begun_of(
                old(self).model(),
                field@,
                match record { Some(t) => Some(t@), None => None },
                current@,
                column as int,
                strings_view(targets@),
                today@,
            ),
    {
        self.edit_notice = None;
        match record {
            None => Err("no task under the cursor".to_string()),
            Some(task) => {
                match open_editor(field, task, current, targets.len(), today) {
                    Ok(editor) => {
                        self.cell_edit = Some(TaskCellEditState::new(column, targets, editor));
                        Ok(())
                    },
                    Err(message) => Err(message),
                }
            },
        }
    }

    /// Closes the open edit when the column it is on is no longer among the
    /// `column_count` columns the table has: committing it would write to
    /// whatever column slid into its place.
    pub fn close_edit_beyond(&mut self, column_count: usize)
        ensures
            final(self).model() == (TaskModel {
                cell_edit: match old(self).model().cell_edit {
                    Some(e) => if e.column >= column_count { None } else { Some(e) },
                    None => None,
                },
                ..old(self).model()
            }),
    {
        let gone = match &self.cell_edit {
            Some(edit) => edit.column() >= column_count,
            None => false,
        };
        if gone {
            self.cell_edit = None;
        }
    }

    /// Opens a cell edit, replacing any that was open.
    pub fn open_cell_edit(&mut self, edit: TaskCellEditState)
        ensures
            final(self).model() == (TaskModel { cell_edit: Some(edit.model()), ..old(self).model() }),
    {
        self.cell_edit = Some(edit);
    }

    /// Whether a cell editor is open.
    pub fn cell_edit_open(&self) -> (r: bool)
        ensures
            r == self.model().cell_edit is Some,
    {
        self.cell_edit.is_some()
    }

    /// Whether the open editor is a value picker.
    pub fn cell_edit_is_options(&self) -> (r: bool)
        ensures
            r == (self.model().cell_edit matches Some(e) && e.editor is Options),
    {
        match &self.cell_edit {
            Some(edit) => edit.editor().is_options(),
            None => false,
        }
    }

    /// Whether the open date picker belongs to a cell edit.
    pub fn cell_edit_owns_calendar(&self) -> (r: bool)
        ensures
            r == (self.model().cell_edit matches Some(e) && e.editor is Date),
    {
        match &self.cell_edit {
            Some(edit) => edit.calendar().is_some(),
            None => false,
        }
    }

    /// Whether a date picker is open, whichever editor owns it.
    pub fn calendar_open(&self) -> (r: bool)
        ensures
            r == ((self.model().cell_edit matches Some(e) && e.editor is Date) || self.model().filter.calendar is Some),
    {
        self.cell_edit_owns_calendar() || self.filter_editor.calendar_open()
    }

    /// Records where the renderer scrolled the open cell's text to.
    pub fn set_cell_edit_window(&mut self, start: usize)
        ensures
            final(self).model() == match old(self).model().cell_edit {
                Some(e) => TaskModel { cell_edit: Some(CellEditModel { window_start: start as int, ..e }), ..old(self).model() },
                None => old(self).model(),
            },
    {
        match self.cell_edit.take() {
            Some(mut edit) => {
                edit.set_window_start(start);
                self.cell_edit = Some(edit);
            }
            None => {}
        }
    }

    /// How many tasks the open edit will change, or zero with none open.
    pub fn cell_edit_target_count(&self) -> (r: usize)
        ensures
            r == match self.model().cell_edit {
                Some(e) => e.targets.len() as int,
                None => 0,
            },
    {
        match &self.cell_edit {
            Some(edit) => edit.targets().len(),
            None => 0,
        }
    }

    /// Throws the open edit away, leaving the value as it was.
    pub fn cancel_cell_edit(&mut self)
        ensures
            final(self).model() == (TaskModel { cell_edit: None, ..old(self).model() }),
    {
        self.cell_edit = None;
    }

    /// Carries out a text edit in the open editor.
    fn cell_edit_text(&mut self, op: TextOp)
        ensures
            final(self).model() == with_cell_edit(old(self).model(), |e: EditorView| text_edited(e, op)),
    {
        match self.cell_edit.take() {
            Some(mut edit) => {
                edit.edit_text(op);
                self.cell_edit = Some(edit);
            }
            None => {}
        }
    }

    /// Types a character into the open editor.
    pub fn cell_edit_push_char(&mut self, ch: char)
        ensures
            final(self).model() == with_cell_edit(old(self).model(), |e: EditorView| text_edited(e, TextOp::Insert(ch))),
    {
        self.cell_edit_text(TextOp::Insert(ch));
    }

    /// Deletes the character before the caret in the open editor.
    pub fn cell_edit_pop_char(&mut self)
        ensures
            final(self).model() == with_cell_edit(old(self).model(), |e: EditorView| text_edited(e, TextOp::DeleteBack)),
    {
        self.cell_edit_text(TextOp::DeleteBack);
    }

    /// Moves the open editor's caret.
    pub fn cell_edit_move_caret(&mut self, delta: i64)
        ensures
            final(self).model() == with_cell_edit(old(self).model(), |e: EditorView| text_edited(e, TextOp::MoveCaret(delta))),
    {
        self.cell_edit_text(TextOp::MoveCaret(delta));
    }

    /// Moves the open editor's caret a word.
    pub fn cell_edit_move_word(&mut self, delta: i64)
        ensures
            final(self).model() == with_cell_edit(old(self).model(), |e: EditorView| text_edited(e, TextOp::MoveWord(delta))),
    {
        self.cell_edit_text(TextOp::MoveWord(delta));
    }

    /// Puts the open editor's caret at the start.
    pub fn cell_edit_jump_start(&mut self)
        ensures
            final(self).model() == with_cell_edit(old(self).model(), |e: EditorView| text_edited(e, TextOp::JumpStart)),
    {
        self.cell_edit_text(TextOp::JumpStart);
    }

    /// Puts the open editor's caret at the end.
    pub fn cell_edit_jump_end(&mut self)
        ensures
            final(self).model() == with_cell_edit(old(self).model(), |e: EditorView| text_edited(e, TextOp::JumpEnd)),
    {
        self.cell_edit_text(TextOp::JumpEnd);
    }

    /// Clears the open editor's value.
    pub fn cell_edit_clear(&mut self)
        ensures
            final(self).model() == with_cell_edit(old(self).model(), |e: EditorView| cleared(e)),
    {
        match self.cell_edit.take() {
            Some(mut edit) => {
                edit.clear_value();
                self.cell_edit = Some(edit);
            }
            None => {}
        }
    }

    /// Steps the open value picker.
    pub fn cell_edit_cycle_value(&mut self, delta: i32)
        requires
            old(self).model().cell_edit matches Some(e) ==> cycle_fits(e.editor, delta as int),
        ensures
            final(self).model() == with_cell_edit(old(self).model(), |e: EditorView| cycled(e, delta as int)),
    {
        match self.cell_edit.take() {
            Some(mut edit) => {
                edit.cycle_option(delta);
                self.cell_edit = Some(edit);
            }
            None => {}
        }
    }
}


/// The records a prepared filter keeps, by position, in order.
pub open spec fn kept(records: Seq<Seq<ReadingView>>, sets: Seq<crate::filter::PreparedSetView>) -> Seq<usize>
    decreases records.len(),
{
    if records.len() == 0 {
        Seq::empty()
    } else {
        let rest = kept(records.drop_last(), sets);
        if filter_accepts(sets, records.last()) { rest.push((records.len() - 1) as usize) } else { rest }
    }
}

proof fn lemma_kept_all(records: Seq<Seq<ReadingView>>, sets: Seq<crate::filter::PreparedSetView>)
    requires
        forall|i: int| 0 <= i < records.len() ==> filter_accepts(sets, #[trigger] records[i]),
    ensures
        kept(records, sets) == Seq::new(records.len(), |i: int| i as usize),
    decreases records.len(),
{
    if records.len() > 0 {
        let d = records.drop_last();
        assert forall|i: int| 0 <= i < d.len() implies filter_accepts(sets, #[trigger] d[i]) by {
            assert(d[i] == records[i]);
        }
        lemma_kept_all(d, sets);
        assert(filter_accepts(sets, records[records.len() - 1]));
        assert(kept(records, sets) =~= Seq::new(records.len(), |i: int| i as usize));
    }
}

proof fn lemma_kept_in_range(records: Seq<Seq<ReadingView>>, sets: Seq<crate::filter::PreparedSetView>)
    ensures
        forall|j: int| 0 <= j < kept(records, sets).len() ==> #[trigger] kept(records, sets)[j] < records.len(),
    decreases records.len(),
{
    if records.len() > 0 {
        let d = records.drop_last();
        lemma_kept_in_range(d, sets);
        let rest = kept(d, sets);
        assert forall|j: int| 0 <= j < kept(records, sets).len() implies #[trigger] kept(records, sets)[j] < records.len() by {
            if j < rest.len() {
                assert(kept(records, sets)[j] == rest[j]);
            }
        }
    }
}

/// Adding a filter set can only widen the tasks shown: the new set is
/// empty and accepts every task, so every task is shown afterwards, and
/// in particular every task that was shown before.
pub proof fn lemma_adding_a_set_shows_every_task(
    t: TaskModel,
    records: Seq<crate::records::TaskRecord>,
    today: (int, int, int),
)
    requires
        0 <= t.filter.active < t.filter.sets.len(),
    ensures
        ({
            let rows = panel_rows(t.filter);
            let before = kept(record_readings(rows, records), prepared_sets(t.filter.sets, today, t.current_user_gid));
            let after = kept(record_readings(rows, records),
                prepared_sets(marked(fp::add_set_of(t.filter)).sets, today, t.current_user_gid));
            &&& after == Seq::new(records.len(), |i: int| i as usize)
            &&& forall|j: int| 0 <= j < before.len() ==> after.contains(#[trigger] before[j])
        }),
{
    let rows = panel_rows(t.filter);
    let rs = record_readings(rows, records);
    let new_sets = marked(fp::add_set_of(t.filter)).sets;
    let prepared = prepared_sets(new_sets, today, t.current_user_gid);
    assert forall|i: int| 0 <= i < rs.len() implies filter_accepts(prepared, #[trigger] rs[i]) by {
        fp::lemma_adding_a_set_only_widens(t.filter, today, t.current_user_gid, rs[i]);
    }
    lemma_kept_all(rs, prepared);
    let before = kept(rs, prepared_sets(t.filter.sets, today, t.current_user_gid));
    lemma_kept_in_range(rs, prepared_sets(t.filter.sets, today, t.current_user_gid));
    let after = kept(rs, prepared);
    assert forall|j: int| 0 <= j < before.len() implies after.contains(#[trigger] before[j]) by {
        let x = before[j];
        assert(after[x as int] == x);
    }
}

/// What each row reads of one task record.
pub open spec fn record_row_readings(rows: Seq<crate::filter::FieldView>, r: crate::records::RecordView) -> Seq<ReadingView> {
    rows.map_values(|f: crate::filter::FieldView| crate::records::reading_of(f.key, f.custom_gids, r))
}

/// What each row reads of each task record.
pub open spec fn record_readings(rows: Seq<crate::filter::FieldView>, records: Seq<crate::records::TaskRecord>) -> Seq<Seq<ReadingView>> {
    records.map_values(|rec: crate::records::TaskRecord| record_row_readings(rows, rec@))
}

/// Records as plain values.
pub open spec fn records_view(records: Seq<Vec<FieldReading>>) -> Seq<Seq<ReadingView>> {
    records.map_values(|rec: Vec<FieldReading>| readings(rec@))
}

/// The total of some counts.
pub open spec fn total(v: Seq<usize>) -> int
    decreases v.len(),
{
    if v.len() == 0 { 0 } else { total(v.drop_last()) + v.last() }
}

/// Each set's count of rows that filter, in order.
pub open spec fn counts_of(p: PanelView) -> Seq<usize> {
    p.sets.map_values(|s: crate::filter::SetView| count_active(s.fields) as usize)
}

/// The pane with the filter panel changed.
pub open spec fn with_filter(m: TaskModel, p: PanelView) -> TaskModel {
    TaskModel { filter: p, ..m }
}

impl TaskState {
    /// The filter panel.
    pub fn filter_editor(&self) -> (r: &TaskFilterEditorState)
        ensures
            r@ == self.model().filter,
    {
        &self.filter_editor
    }

    /// Builds the filter panel afresh from its rows, carrying over
    /// everything the user did in the one it replaces.
    pub fn rebuild_filter_panel(&mut self, fields: Vec<crate::filter::TaskFilterFieldState>)
        ensures
            final(self).model() == with_filter(old(self).model(), crate::filter_panel::restored_panel(
                TaskFilterEditorState::from_fields_view(crate::filter::fields_view(fields@)),
                old(self).model().filter,
            )),
    {
        let ghost fv = crate::filter::fields_view(fields@);
        let mut fresh = TaskFilterEditorState::from_fields(fields);
        std::mem::swap(&mut fresh, &mut self.filter_editor);
        self.filter_editor.restore_queries(fresh);
    }

    /// How many shown rows exclude anything.
    pub fn active_filter_count(&self) -> (r: usize)
        ensures
            r == crate::filter_panel::count_filtering(panel_rows(self.model().filter)),
    {
        self.filter_editor.active_filter_count()
    }

    /// Whether the filter panel is drawn.
    pub fn filter_panel_visible(&self) -> (r: bool)
        ensures
            r == self.model().filter.visible,
    {
        self.filter_editor.visible()
    }

    /// Whether a filter row is being edited.
    pub fn filter_panel_editing(&self) -> (r: bool)
        ensures
            r == self.model().filter.editing,
    {
        self.filter_editor.editing()
    }

    /// What kind of value the row under the filter cursor tests.
    pub fn filter_selected_kind(&self) -> (r: Option<TaskFieldFilterKind>)
        ensures
            r == if has_row(self.model().filter) { Some(row_of(self.model().filter).kind) } else { None },
    {
        self.filter_editor.selected_kind()
    }

    /// Whether the row under the filter cursor is a labels row.
    pub fn filter_selected_is_labels(&self) -> (r: bool)
        ensures
            r == (has_row(self.model().filter) && row_of(self.model().filter).kind == TaskFieldFilterKind::Labels),
    {
        match self.filter_editor.selected_kind() {
            Some(TaskFieldFilterKind::Labels) => true,
            _ => false,
        }
    }

    /// Shows or hides the filter panel.
    pub fn toggle_filter_panel(&mut self)
        ensures
            final(self).model() == with_filter(old(self).model(), PanelView {
                visible: !old(self).model().filter.visible,
                editing: old(self).model().filter.editing && !old(self).model().filter.visible,
                ..old(self).model().filter
            }),
    {
        self.filter_editor.toggle_visible();
    }

    /// Moves the filter cursor up a row, caret to the end of its text.
    pub fn move_filter_up(&mut self)
        ensures
            final(self).model() == with_filter(old(self).model(), fp::reset_query_caret_of(fp::move_up_of(old(self).model().filter))),
    {
        self.filter_editor.move_up();
        self.filter_editor.reset_query_caret();
    }

    /// Moves the filter cursor down a row, caret to the end of its text.
    pub fn move_filter_down(&mut self)
        ensures
            final(self).model() == with_filter(old(self).model(), fp::reset_query_caret_of(fp::move_down_of(old(self).model().filter))),
    {
        self.filter_editor.move_down();
        self.filter_editor.reset_query_caret();
    }

    /// Moves the filter cursor up a page.
    pub fn filter_page_up(&mut self, page_size: usize)
        ensures
            final(self).model() == with_filter(old(self).model(), fp::page_up_of(old(self).model().filter, page_size)),
    {
        self.filter_editor.page_up(page_size);
    }

    /// Moves the filter cursor down a page.
    pub fn filter_page_down(&mut self, page_size: usize)
        ensures
            final(self).model() == with_filter(old(self).model(), fp::page_down_of(old(self).model().filter, page_size)),
    {
        self.filter_editor.page_down(page_size);
    }

    /// Empties the row under the filter cursor.
    pub fn filter_clear_current(&mut self)
        ensures
            final(self).model() == with_filter(old(self).model(), marked(fp::clear_current_of(old(self).model().filter))),
    {
        self.filter_editor.clear_current();
        self.filter_editor.note_change();
    }

    /// Switches the row under the filter cursor to a match mode.
    pub fn filter_set_mode(&mut self, mode: TaskFieldStringMode)
        ensures
            final(self).model() == with_filter(old(self).model(), marked(fp::set_mode_of(old(self).model().filter, mode))),
    {
        self.filter_editor.set_mode(mode);
        self.filter_editor.note_change();
    }

    /// Moves the row under the filter cursor to the next match mode.
    pub fn filter_cycle_mode(&mut self)
        ensures
            final(self).model() == with_filter(old(self).model(), marked(fp::cycle_mode_of(old(self).model().filter))),
    {
        self.filter_editor.cycle_mode();
        self.filter_editor.note_change();
    }

    /// Types into the filter panel.
    pub fn filter_push_char(&mut self, ch: char)
        ensures
            final(self).model() == with_filter(old(self).model(), marked(fp::push_char_of(old(self).model().filter, ch))),
    {
        self.filter_editor.push_char(ch);
        self.filter_editor.note_change();
    }

    /// Deletes backwards in the filter panel.
    pub fn filter_pop_char(&mut self)
        ensures
            final(self).model() == with_filter(old(self).model(), marked(fp::pop_char_of(old(self).model().filter))),
    {
        self.filter_editor.pop_char();
        self.filter_editor.note_change();
    }

    /// Moves the caret in the filter panel.
    pub fn filter_move_caret(&mut self, delta: i64)
        ensures
            final(self).model() == with_filter(old(self).model(), fp::move_query_caret_of(old(self).model().filter, delta)),
    {
        self.filter_editor.move_query_caret(delta);
    }

    /// Moves the filter row's caret a word at a time.
    pub fn filter_move_word(&mut self, delta: i64)
        ensures
            final(self).model() == with_filter(old(self).model(), fp::edit_selected_text_of(old(self).model().filter, TextOp::MoveWord(delta))),
    {
        self.filter_editor.edit_selected_text(TextOp::MoveWord(delta));
    }

    /// Puts the filter row's caret at the start of its text.
    pub fn filter_caret_to_start(&mut self)
        ensures
            final(self).model() == with_filter(old(self).model(), fp::edit_selected_text_of(old(self).model().filter, TextOp::JumpStart)),
    {
        self.filter_editor.edit_selected_text(TextOp::JumpStart);
    }

    /// Puts the filter row's caret at the end of its text.
    pub fn filter_caret_to_end(&mut self)
        ensures
            final(self).model() == with_filter(old(self).model(), fp::edit_selected_text_of(old(self).model().filter, TextOp::JumpEnd)),
    {
        self.filter_editor.edit_selected_text(TextOp::JumpEnd);
    }

    /// Whether the row under the filter cursor picks from a directory.
    pub fn filter_row_completes(&self) -> (r: bool)
        ensures
            r == crate::filter_panel::completes_of(self.model().filter),
    {
        self.filter_editor.selected_completes()
    }

    /// Whether the panel's completion editor is open.
    pub fn filter_autocomplete_open(&self) -> (r: bool)
        ensures
            r == self.model().filter.autocomplete is Some,
    {
        self.filter_editor.autocomplete_open()
    }

    /// Resolves the panel's completion editor, reporting what it could not:
    /// `<text> is ambiguous`, or `no one called <text>`.
    pub fn filter_autocomplete_commit(&mut self) -> (r: Option<String>)
        ensures
            final(self).model() == with_filter(old(self).model(), fp::commit_autocomplete_of(old(self).model().filter)),
            match old(self).model().filter.autocomplete {
                None => r is None,
                Some(m) => match crate::autocomplete::resolution_of(m) {
                    Ok(_) => r is None,
                    Err(ambiguous) => r matches Some(t) && t@ == if ambiguous {
                        crate::text::trim(m.buffer.0) + " is ambiguous"@
                    } else {
                        "no one called "@ + crate::text::trim(m.buffer.0)
                    },
                },
            },
    {
        let refusal = self.filter_editor.commit_autocomplete();
        match refusal {
            None => None,
            Some(Unresolved::Ambiguous(text)) => {
                let mut out = text.clone();
                crate::text::push_str(&mut out, " is ambiguous");
                Some(out)
            },
            Some(Unresolved::Unknown(text)) => {
                let mut out = "no one called ".to_string();
                crate::text::push_str(&mut out, text.as_str());
                Some(out)
            },
        }
    }

    /// Who is logged in, for `me` in a `list` row.
    pub fn current_user_gid(&self) -> (r: Option<&str>)
        ensures
            match r {
                Some(g) => self.model().current_user_gid == Some(g@),
                None => self.model().current_user_gid is None,
            },
    {
        match &self.current_user_gid {
            Some(g) => Some(g.as_str()),
            None => None,
        }
    }

    /// Starts editing the row under the filter cursor, with the completion
    /// editor over `candidates` on a `list` row.
    pub fn filter_edit_begin_with(&mut self, candidates: Vec<Candidate>)
        ensures
            ({
                let p = fp::start_editing_of(old(self).model().filter);
                final(self).model() == with_filter(old(self).model(), if !fp::completes_of(p) { p } else {
                    fp::synced_ac(PanelView {
                        autocomplete: Some(crate::autocomplete::AutocompleteModel {
                            items: fp::resolved_names(crate::filter::label_values_of(row_of(p).value.0), candidates.deep_view()),
                            buffer: (Seq::<char>::empty(), 0int),
                            item_caret: fp::resolved_names(crate::filter::label_values_of(row_of(p).value.0), candidates.deep_view()).len() as int,
                            candidates: candidates.deep_view(),
                            cycle: None,
                            max_items: usize::MAX as int,
                        }),
                        ..p
                    })
                })
            }),
    {
        self.filter_editor.start_editing();
        self.filter_editor.open_autocomplete(candidates);
    }

    /// Starts editing the row under the filter cursor.
    pub fn filter_edit_begin(&mut self)
        ensures
            final(self).model() == with_filter(old(self).model(), fp::start_editing_of(old(self).model().filter)),
    {
        self.filter_editor.start_editing();
    }

    /// Stops editing the filter panel.
    pub fn filter_edit_done(&mut self)
        ensures
            final(self).model() == with_filter(old(self).model(), crate::filter_panel::stopped(old(self).model().filter)),
    {
        self.filter_editor.stop_editing();
    }

    /// The shown filter rows as `(label, query)` pairs.
    pub fn filter_panel_rows(&self) -> (r: Vec<(String, String)>)
        ensures
            r@.len() == panel_rows(self.model().filter).len(),
            forall|i: int| 0 <= i < r@.len() ==> (#[trigger] r@[i]).0@ == panel_rows(self.model().filter)[i].label
                && r@[i].1@ == crate::filter_panel::shown_query(panel_rows(self.model().filter)[i]),
    {
        self.filter_editor.rows_text()
    }

    /// Opens the date picker on the row under the filter cursor, answering
    /// whether it opened.
    pub fn filter_calendar_begin(&mut self) -> (r: bool)
        ensures
            r == (has_row(old(self).model().filter) && row_of(old(self).model().filter).kind == TaskFieldFilterKind::Date),
            !r ==> final(self).model() == old(self).model(),
            r ==> exists|today: (int, int, int)| crate::date::valid_ymd(today) && final(self).model() == #[trigger] calendar_begun(old(self).model(), today),
    {
        let today = crate::date::today();
        let ghost day = today@;
        let r = self.filter_editor.open_calendar(today);
        proof {
            if r {
                assert(self.model() == calendar_begun(old(self).model(), day));
            }
        }
        r
    }

    /// Closes the filter panel's date picker.
    pub fn filter_calendar_close(&mut self)
        ensures
            final(self).model() == with_filter(old(self).model(), PanelView { calendar: None, ..old(self).model().filter }),
    {
        self.filter_editor.close_calendar();
    }

    /// Moves the label cursor left.
    pub fn filter_move_label_left(&mut self)
        ensures
            final(self).model() == with_filter(old(self).model(), fp::move_label_cursor_left_of(old(self).model().filter)),
    {
        self.filter_editor.move_label_cursor_left();
    }

    /// Moves the label cursor right.
    pub fn filter_move_label_right(&mut self)
        ensures
            final(self).model() == with_filter(old(self).model(), fp::move_label_cursor_right_of(old(self).model().filter)),
    {
        self.filter_editor.move_label_cursor_right();
    }

    /// Steps the value under the label cursor through the options.
    pub fn filter_cycle_label_value(&mut self, delta: i32)
        requires
            has_row(old(self).model().filter) ==> row_of(old(self).model().filter).label_options.len() <= i32::MAX,
        ensures
            final(self).model() == with_filter(old(self).model(), marked(fp::cycle_selected_label_of(old(self).model().filter, delta))),
    {
        self.filter_editor.cycle_selected_label(delta);
        self.filter_editor.note_change();
    }

    /// Adds a label value after the cursor.
    pub fn filter_add_label(&mut self)
        ensures
            final(self).model() == with_filter(old(self).model(), marked(fp::add_label_of(old(self).model().filter))),
    {
        self.filter_editor.add_label();
        self.filter_editor.note_change();
    }

    /// Deletes the label value under the cursor.
    pub fn filter_delete_label(&mut self)
        ensures
            final(self).model() == with_filter(old(self).model(), marked(fp::delete_selected_label_of(old(self).model().filter))),
    {
        self.filter_editor.delete_selected_label();
        self.filter_editor.note_change();
    }

    /// Carries out a key of the open filter panel: the cursor, a page, the
    /// panel itself, the row under the cursor, or the sets.
    pub fn apply_panel_action(&mut self, action: PanelAction, page_size: usize)
        requires
            action == PanelAction::AddSet ==> old(self).model().filter.sets.len() > 0,
            old(self).model().filter.sets.len() <= i32::MAX,
        ensures
            final(self).model() == panel_action_of(old(self).model(), action, page_size as int),
    {
        match action {
            PanelAction::MoveUp => self.move_filter_up(),
            PanelAction::MoveDown => self.move_filter_down(),
            PanelAction::PageUp => self.filter_page_up(page_size),
            PanelAction::PageDown => self.filter_page_down(page_size),
            PanelAction::ToggleVisible => self.toggle_filter_panel(),
            PanelAction::ClearRow => self.filter_clear_current(),
            PanelAction::AddSet => self.filter_add_set(),
            PanelAction::RemoveSet => self.filter_remove_set(),
            PanelAction::NextSet => self.filter_select_set(1),
            PanelAction::PreviousSet => self.filter_select_set(-1),
            PanelAction::RequireEmpty => self.filter_toggle_require_empty(),
            PanelAction::NegateField => self.filter_toggle_negate_field(),
            PanelAction::NegateSet => self.filter_toggle_negate_set(),
            PanelAction::CycleMode => self.filter_cycle_mode(),
            PanelAction::SetMode(mode) => self.filter_set_mode(mode),
        }
    }

    /// Switches require-empty on the row under the filter cursor; when it
    /// changes, the picker bound to the old value closes.
    pub fn filter_toggle_require_empty(&mut self)
        ensures
            final(self).model() == with_filter(old(self).model(), if has_row(old(self).model().filter) && row_of(old(self).model().filter).can_be_empty {
                marked(PanelView { calendar: None, ..with_row(old(self).model().filter, fp::toggled_empty(row_of(old(self).model().filter))) })
            } else {
                old(self).model().filter
            }),
    {
        if self.filter_editor.toggle_require_empty() {
            self.filter_editor.close_calendar();
            self.filter_editor.note_change();
        }
    }

    /// Switches negation on the row under the filter cursor.
    pub fn filter_toggle_negate_field(&mut self)
        ensures
            final(self).model() == with_filter(old(self).model(), if has_row(old(self).model().filter) {
                marked(fp::on_row(old(self).model().filter, |f: crate::filter::FieldView| crate::filter::FieldView { negated: !f.negated, ..f }))
            } else {
                old(self).model().filter
            }),
    {
        if self.filter_editor.toggle_negate_field() {
            self.filter_editor.note_change();
        }
    }

    /// Switches negation on the active filter set.
    pub fn filter_toggle_negate_set(&mut self)
        ensures
            final(self).model() == with_filter(old(self).model(), if 0 <= old(self).model().filter.active < old(self).model().filter.sets.len() {
                marked(PanelView {
                    sets: old(self).model().filter.sets.update(old(self).model().filter.active, crate::filter::SetView {
                        negated: !old(self).model().filter.sets[old(self).model().filter.active].negated,
                        ..old(self).model().filter.sets[old(self).model().filter.active]
                    }),
                    ..old(self).model().filter
                })
            } else {
                old(self).model().filter
            }),
    {
        if self.filter_editor.toggle_negate_set() {
            self.filter_editor.note_change();
        }
    }

    /// Whether the set on screen is negated.
    pub fn filter_active_set_negated(&self) -> (r: bool)
        ensures
            r == (0 <= self.model().filter.active < self.model().filter.sets.len()
                && self.model().filter.sets[self.model().filter.active].negated),
    {
        self.filter_editor.active_set_negated()
    }

    /// Which sets are negated, in order.
    pub fn filter_set_negations(&self) -> (r: Vec<bool>)
        ensures
            r@.len() == self.model().filter.sets.len(),
            forall|i: int| 0 <= i < r@.len() ==> r@[i] == (#[trigger] self.model().filter.sets[i]).negated,
    {
        let sets = self.filter_editor.sets();
        let mut out: Vec<bool> = Vec::new();
        let mut i: usize = 0;
        while i < sets.len()
            invariant
                i <= sets.len(),
                crate::filter_edit::sets_view(sets@) == self.model().filter.sets,
                out@.len() == i,
                forall|k: int| 0 <= k < i ==> out@[k] == (#[trigger] self.model().filter.sets[k]).negated,
            decreases sets.len() - i,
        {
            assert(self.model().filter.sets[i as int] == sets@[i as int]@);
            out.push(sets[i].negated);
            i += 1;
        }
        out
    }

    /// Adds a filter set after the active one.
    pub fn filter_add_set(&mut self)
        requires
            old(self).model().filter.sets.len() > 0,
        ensures
            final(self).model() == with_filter(old(self).model(), marked(fp::add_set_of(old(self).model().filter))),
    {
        self.filter_editor.add_set();
        self.filter_editor.note_change();
    }

    /// Removes the active filter set, unless it is the last.
    pub fn filter_remove_set(&mut self)
        ensures
            final(self).model() == with_filter(old(self).model(), marked(fp::remove_set_of(old(self).model().filter))),
    {
        self.filter_editor.remove_set();
        self.filter_editor.note_change();
    }

    /// Moves to another filter set, wrapping.
    pub fn filter_select_set(&mut self, delta: i32)
        requires
            old(self).model().filter.sets.len() <= i32::MAX,
        ensures
            final(self).model() == with_filter(old(self).model(), marked(fp::select_set_of(old(self).model().filter, delta))),
    {
        self.filter_editor.select_set(delta);
        self.filter_editor.note_change();
    }

    /// Shows or hides the sidebar of named sets.
    pub fn filter_sets_toggle_sidebar(&mut self)
        ensures
            final(self).model() == with_filter(old(self).model(), fp::toggle_sidebar_of(old(self).model().filter)),
    {
        self.filter_editor.toggle_sidebar();
    }

    /// Tells the panel how many saved entries the sidebar has room for.
    pub fn set_filter_sets_window(&mut self, rows: usize)
        ensures
            final(self).model() == with_filter(old(self).model(), fp::set_sidebar_rows_of(old(self).model().filter, rows)),
    {
        self.filter_editor.set_sidebar_rows(rows);
    }

    /// The first saved entry in the numbered window.
    pub fn filter_sets_page_start(&self) -> (r: usize)
        ensures
            r == self.model().filter.sidebar_page_start,
    {
        self.filter_editor.sidebar_page_start()
    }

    /// How many saved entries the numbered window holds.
    pub fn filter_sets_window(&self) -> (r: usize)
        ensures
            r == crate::filter_panel::window_of(self.model().filter),
    {
        self.filter_editor.sidebar_window()
    }

    /// Pages the numbered window.
    pub fn filter_sets_page(&mut self, delta: i32, total: usize)
        requires
            total <= i32::MAX,
            old(self).model().filter.sidebar_page_start <= i32::MAX,
            i32::MIN <= old(self).model().filter.sidebar_page_start + delta * crate::filter_panel::window_of(old(self).model().filter) <= i32::MAX,
        ensures
            final(self).model() == with_filter(old(self).model(), fp::page_sidebar_of(old(self).model().filter, delta, total)),
    {
        self.filter_editor.page_sidebar(delta, total);
    }

    /// The named entry the panel is bound to.
    pub fn filter_set_loaded_name(&self) -> (r: Option<&str>)
        ensures
            match r {
                Some(n) => self.model().filter.loaded == Some(n@),
                None => self.model().filter.loaded is None,
            },
    {
        self.filter_editor.loaded()
    }

    /// The panel's sets as they are saved.
    pub fn filter_sets_to_saved(&self) -> (r: Vec<SavedFilterSet>)
        ensures
            r@.len() == self.model().filter.sets.len(),
            forall|i: int| 0 <= i < r@.len() ==> (#[trigger] r@[i]).negated == self.model().filter.sets[i].negated
                && crate::filter::saved_view(r@[i].fields@) == saved_rows(self.model().filter.sets[i].fields) + self.model().filter.sets[i].unresolved,
    {
        self.filter_editor.to_saved()
    }

    /// Replaces the panel with a named entry and binds it to that name,
    /// with nothing left to write.
    pub fn filter_sets_load(&mut self, name: &str, saved: &[SavedFilterSet])
        ensures
            final(self).model() == with_filter(old(self).model(), PanelView {
                loaded: Some(name@),
                dirty: false,
                notice: None,
                ..fp::apply_saved_of(old(self).model().filter, fp::saved_sets_view(saved@))
            }),
    {
        self.filter_editor.apply_saved(saved);
        self.filter_editor.bind(Some(name.to_string()));
        self.filter_editor.set_notice(None);
    }

    /// Binds the panel to a name without touching what it holds.
    pub fn filter_set_bind(&mut self, name: &str)
        ensures
            final(self).model() == with_filter(old(self).model(), PanelView { loaded: Some(name@), dirty: false, ..old(self).model().filter }),
    {
        self.filter_editor.bind(Some(name.to_string()));
    }

    /// Keeps what is on screen and stops being the named entry.
    pub fn filter_set_detach(&mut self)
        ensures
            final(self).model() == with_filter(old(self).model(), PanelView { loaded: None, dirty: false, ..old(self).model().filter }),
    {
        self.filter_editor.bind(None);
    }

    /// Starts a fresh panel, bound to nothing.
    pub fn filter_set_new(&mut self)
        ensures
            final(self).model() == with_filter(old(self).model(), crate::filter_panel::stopped(PanelView {
                sets: seq![crate::filter_panel::reset_set(old(self).model().filter)],
                active: 0,
                selected: 0,
                loaded: None,
                dirty: false,
                ..old(self).model().filter
            })),
    {
        self.filter_editor.bind(None);
        self.filter_editor.reset();
        self.filter_editor.set_dirty(false);
    }

    /// Whether the bound panel has changes to write.
    pub fn filter_set_dirty(&self) -> (r: bool)
        ensures
            r == self.model().filter.dirty,
    {
        self.filter_editor.dirty()
    }

    /// Records that the panel has been written.
    pub fn clear_filter_set_dirty(&mut self)
        ensures
            final(self).model() == with_filter(old(self).model(), PanelView { dirty: false, ..old(self).model().filter }),
    {
        self.filter_editor.set_dirty(false);
    }

    /// The sidebar's open prompt.
    pub fn filter_set_prompt(&self) -> (r: Option<&SidebarPrompt>)
        ensures
            match r {
                Some(q) => self.model().filter.prompt == Some(q@),
                None => self.model().filter.prompt is None,
            },
    {
        self.filter_editor.prompt()
    }

    /// Opens the save prompt.
    pub fn filter_set_prompt_save(&mut self)
        ensures
            final(self).model() == with_filter(old(self).model(), fp::prompt_save_of(old(self).model().filter)),
    {
        self.filter_editor.prompt_save();
    }

    /// Opens the delete confirmation, or reports that nothing is bound.
    pub fn filter_set_prompt_delete(&mut self) -> (r: bool)
        ensures
            r == old(self).model().filter.loaded is Some,
            final(self).model() == with_filter(old(self).model(), match old(self).model().filter.loaded {
                Some(n) => PanelView {
                    sidebar_visible: true,
                    notice: None,
                    prompt: Some(fp::PromptView::ConfirmDelete { name: n }),
                    ..old(self).model().filter
                },
                None => PanelView { notice: Some("no set is loaded"@), ..old(self).model().filter },
            }),
    {
        self.filter_editor.prompt_delete()
    }

    /// Opens the confirmation for a load that would lose work.
    pub fn filter_set_prompt_confirm_load(&mut self, name: &str)
        ensures
            final(self).model() == with_filter(old(self).model(), fp::prompt_confirm_load_of(old(self).model().filter, name@)),
    {
        self.filter_editor.prompt_confirm_load(name);
    }

    /// How many rows filter something, across every set.
    pub fn active_filter_count_across_sets(&self) -> (r: usize)
        requires
            total(counts_of(self.model().filter)) <= usize::MAX,
        ensures
            r == total(counts_of(self.model().filter)),
    {
        let counts = self.filter_editor.set_counts();
        let ghost cs = counts_of(self.model().filter);
        assert(counts@ =~= cs);
        let mut sum: usize = 0;
        let mut i: usize = 0;
        while i < counts.len()
            invariant
                i <= counts.len(),
                counts@ == cs,
                total(cs) <= usize::MAX,
                sum == total(cs.take(i as int)),
            decreases counts.len() - i,
        {
            assert(cs.take(i as int + 1).drop_last() == cs.take(i as int));
            proof { lemma_total_prefix(cs, i as int + 1); }
            sum = sum + counts[i];
            i += 1;
        }
        assert(cs.take(i as int) == cs);
        sum
    }

    /// Whether replacing the panel would lose unsaved work.
    pub fn filter_set_is_unsaved(&self) -> (r: bool)
        ensures
            r == crate::filter_panel::unsaved(self.model().filter),
    {
        self.filter_editor.is_unsaved()
    }

    /// Whether the open prompt wants a yes or a no.
    pub fn filter_set_prompt_is_confirmation(&self) -> (r: bool)
        ensures
            r == (self.model().filter.prompt matches Some(q) && !(q is Save)),
    {
        match self.filter_editor.prompt() {
            Some(q) => q.is_confirmation(),
            None => false,
        }
    }

    /// Closes the sidebar's prompt.
    pub fn filter_set_prompt_cancel(&mut self)
        ensures
            final(self).model() == with_filter(old(self).model(), PanelView { prompt: None, ..old(self).model().filter }),
    {
        self.filter_editor.cancel_prompt();
    }

    /// Types at the save prompt.
    pub fn filter_set_prompt_push_char(&mut self, ch: char)
        ensures
            final(self).model() == with_filter(old(self).model(), fp::prompt_push_char_of(old(self).model().filter, ch)),
    {
        self.filter_editor.prompt_push_char(ch);
    }

    /// Deletes backwards at the save prompt.
    pub fn filter_set_prompt_pop_char(&mut self)
        ensures
            final(self).model() == with_filter(old(self).model(), fp::prompt_pop_char_of(old(self).model().filter)),
    {
        self.filter_editor.prompt_pop_char();
    }

    /// Moves the save prompt's caret.
    pub fn filter_set_prompt_move_caret(&mut self, delta: i64)
        ensures
            final(self).model() == with_filter(old(self).model(), fp::prompt_move_caret_of(old(self).model().filter, delta)),
    {
        self.filter_editor.prompt_move_caret(delta);
    }

    /// The name being typed at the save prompt, if that is the open one.
    pub fn filter_set_prompt_text(&self) -> (r: Option<&str>)
        ensures
            match self.model().filter.prompt {
                Some(crate::filter_panel::PromptView::Save { text, .. }) => r matches Some(t) && t@ == text,
                _ => r is None,
            },
    {
        match self.filter_editor.prompt() {
            Some(SidebarPrompt::Save { text, .. }) => Some(text.as_str()),
            _ => None,
        }
    }

    /// The active set and how many there are.
    pub fn filter_set_position(&self) -> (r: (usize, usize))
        ensures
            r.0 == self.model().filter.active,
            r.1 == self.model().filter.sets.len(),
    {
        (self.filter_editor.active_set_index(), self.filter_editor.set_count())
    }

    /// How many rows filter something in each set, in order.
    pub fn filter_set_counts(&self) -> (r: Vec<usize>)
        ensures
            r@ == counts_of(self.model().filter),
    {
        let r = self.filter_editor.set_counts();
        assert(r@ =~= counts_of(self.model().filter));
        r
    }

    /// The due window the filter sets let the server narrow to today.
    pub fn due_date_range_for_query(&self) -> (r: (Option<String>, Option<String>))
        ensures
            exists|today: (int, int, int)| crate::date::valid_ymd(today)
                && crate::filter_edit::iso_is(r.0, #[trigger] crate::filter_edit::due_window(self.model().filter.sets, today).0)
                && crate::filter_edit::iso_is(r.1, crate::filter_edit::due_window(self.model().filter.sets, today).1),
    {
        self.filter_editor.due_date_range_for_query()
    }

    /// The task records the filter panel keeps, by position, in order:
    /// each row reads its field of a record, and the sets decide.
    pub fn filter_records(&self, records: &[crate::records::TaskRecord]) -> (r: Vec<usize>)
        requires
            forall|i: int| #![trigger self.model().filter.sets[i]] 0 <= i < self.model().filter.sets.len()
                ==> self.model().filter.sets[i].fields.len() <= panel_rows(self.model().filter).len(),
        ensures
            exists|today: (int, int, int)| crate::date::valid_ymd(today) && r@ == kept(
                record_readings(panel_rows(self.model().filter), records@),
                #[trigger] prepared_sets(self.model().filter.sets, today, self.model().current_user_gid),
            ),
    {
        let fields = self.filter_editor.fields();
        let ghost rows = panel_rows(self.model().filter);
        let mut all: Vec<Vec<FieldReading>> = Vec::new();
        let mut k: usize = 0;
        while k < records.len()
            invariant
                k <= records.len(),
                crate::filter::fields_view(fields@) == rows,
                all@.len() == k,
                forall|j: int| 0 <= j < k ==> #[trigger] readings(all@[j]@) == record_row_readings(rows, records@[j]@),
                forall|j: int| 0 <= j < k ==> (#[trigger] all@[j])@.len() == rows.len(),
            decreases records.len() - k,
        {
            let one = crate::records::readings(fields, &records[k]);
            proof {
                assert forall|i: int| 0 <= i < one@.len() implies #[trigger] readings(one@)[i] == record_row_readings(rows, records@[k as int]@)[i] by {
                    assert(fields@[i]@ == rows[i]);
                }
                assert(readings(one@) =~= record_row_readings(rows, records@[k as int]@));
            }
            all.push(one);
            k += 1;
        }
        assert(records_view(all@) =~= record_readings(rows, records@));
        assert forall|k: int, i: int| #![trigger all@[k], self.model().filter.sets[i]]
            0 <= k < all@.len() && 0 <= i < self.model().filter.sets.len()
            implies self.model().filter.sets[i].fields.len() <= all@[k]@.len() by {}
        self.apply_filter_panel(all.as_slice())
    }

    /// The records the filter panel keeps, by position, in order: each
    /// record given as what it holds in each row's field.
    pub fn apply_filter_panel(&self, records: &[Vec<FieldReading>]) -> (r: Vec<usize>)
        requires
            forall|k: int, i: int| #![trigger records@[k], self.model().filter.sets[i]]
                0 <= k < records@.len() && 0 <= i < self.model().filter.sets.len()
                ==> self.model().filter.sets[i].fields.len() <= records@[k]@.len(),
        ensures
            exists|today: (int, int, int)| crate::date::valid_ymd(today) && r@ == kept(
                records_view(records@),
                #[trigger] prepared_sets(self.model().filter.sets, today, self.model().current_user_gid),
            ),
    {
        let me = self.current_user_gid();
        let filter = self.filter_editor.prepare(me);
        let ghost who = crate::filter::who_of(me);
        assert(who == self.model().current_user_gid);
        let ghost today = choose|today: (int, int, int)| crate::date::valid_ymd(today) && filter.view() == #[trigger] prepared_sets(self.model().filter.sets, today, who);
        let ghost rs = records_view(records@);
        let mut out: Vec<usize> = Vec::new();
        let mut k: usize = 0;
        while k < records.len()
            invariant
                k <= records.len(),
                filter.wf(),
                filter.view() == prepared_sets(self.model().filter.sets, today, who),
                who == self.model().current_user_gid,
                rs == records_view(records@),
                forall|i: int, j: int| 0 <= i < filter.view().len() && 0 <= j < filter.view()[i].fields.len()
                    ==> 0 <= #[trigger] filter.view()[i].fields[j].index < self.model().filter.sets[i].fields.len(),
                forall|kk: int, i: int| #![trigger records@[kk], self.model().filter.sets[i]]
                    0 <= kk < records@.len() && 0 <= i < self.model().filter.sets.len()
                    ==> self.model().filter.sets[i].fields.len() <= records@[kk]@.len(),
                out@ == kept(rs.take(k as int), filter.view()),
            decreases records.len() - k,
        {
            assert(rs.take(k as int + 1).drop_last() == rs.take(k as int));
            assert(rs.take(k as int + 1).last() == readings(records@[k as int]@));
            assert(crate::filter::fits(filter.view(), records@[k as int]@.len() as int)) by {
                assert forall|i: int, j: int| 0 <= i < filter.view().len() && 0 <= j < filter.view()[i].fields.len()
                    implies 0 <= #[trigger] filter.view()[i].fields[j].index < records@[k as int]@.len() by {
                    assert(filter.view().len() == self.model().filter.sets.len());
                    assert(self.model().filter.sets[i].fields.len() <= records@[k as int]@.len());
                }
            }
            if filter.matches(records[k].as_slice()) {
                out.push(k);
            }
            k += 1;
        }
        assert(rs.take(k as int) == rs);
        out
    }
}

proof fn lemma_total_prefix(v: Seq<usize>, n: int)
    requires
        0 <= n <= v.len(),
    ensures
        total(v.take(n)) <= total(v),
        0 <= total(v.take(n)),
    decreases v.len() - n,
{
    if n < v.len() {
        lemma_total_prefix(v, n + 1);
        assert(v.take(n + 1).drop_last() == v.take(n));
    } else {
        assert(v.take(n) == v);
    }
    lemma_total_nonneg(v.take(n));
}

proof fn lemma_total_nonneg(v: Seq<usize>)
    ensures
        total(v) >= 0,
    decreases v.len(),
{
    if v.len() > 0 {
        lemma_total_nonneg(v.drop_last());
    }
}


/// `a + b`, held to what a `usize` holds.
pub open spec fn sat_add(a: int, b: int) -> int {
    if a + b > usize::MAX { usize::MAX as int } else { a + b }
}

/// `a - b`, held at zero.
pub open spec fn sat_sub(a: int, b: int) -> int {
    if a >= b { a - b } else { 0 }
}

/// Where the filter rows scroll to so the cursor stays drawn, a row of
/// margin kept on either side where the viewport has room for it, and never
/// past the last row.
pub open spec fn filter_scroll_for(scroll: int, selected: int, rows: int, viewport_height: int) -> int {
    let vh = if viewport_height < 1 { 1 } else { viewport_height };
    let margin = if vh - 1 < 1 { vh - 1 } else { 1 };
    let min_visible = sat_add(scroll, margin);
    let max_visible = sat_sub(sat_add(scroll, vh - 1), margin);
    if selected < min_visible {
        sat_sub(selected, margin)
    } else {
        let s = if selected > max_visible { sat_sub(sat_add(sat_add(selected, margin), 1), vh) } else { scroll };
        let top = sat_sub(rows, 1);
        if s < top { s } else { top }
    }
}

/// The hints under the filter panel: how to edit or leave, then what the
/// row under the cursor takes.
pub open spec fn help_lines(p: PanelView) -> Seq<Seq<char>> {
    let first = if p.editing { seq!["enter/esc: done editing"@] } else { seq!["enter: edit selected filter, f: hide filters"@] };
    if !has_row(p) {
        first
    } else {
        match row_of(p).kind {
            TaskFieldFilterKind::String => if p.editing {
                first.push("string: fuzzy | contains | regex"@)
            } else {
                first.push("s: cycle string mode"@).push("string: fuzzy | contains | regex"@)
            },
            TaskFieldFilterKind::Labels => first.push("labels: j/k cycle value, h/l move, a add, d delete"@),
            TaskFieldFilterKind::Date => first.push("date: enter opens a calendar"@)
                .push("date: YYYY-MM-DD | MM-DD | today | tomorrow | mon/tue/... | start..end"@),
        }
    }
}

impl TaskState {
    /// The first filter row drawn.
    pub fn filter_panel_scroll(&self) -> (r: usize)
        ensures
            r == self.model().filter_scroll,
    {
        self.filter_vertical_scroll
    }

    /// Scrolls the filter rows so the cursor is drawn in a viewport of
    /// `viewport_height` rows.
    pub fn ensure_filter_visible(&mut self, viewport_height: usize)
        ensures
            final(self).model() == (TaskModel {
                filter_scroll: filter_scroll_for(
                    old(self).model().filter_scroll,
                    old(self).model().filter.selected,
                    panel_rows(old(self).model().filter).len() as int,
                    viewport_height as int,
                ),
                ..old(self).model()
            }),
    {
        let vh: usize = if viewport_height < 1 { 1 } else { viewport_height };
        let selected = self.filter_editor.selected();
        let margin: usize = if vh - 1 < 1 { vh - 1 } else { 1 };
        let scroll = self.filter_vertical_scroll;
        let min_visible: usize = if scroll > usize::MAX - margin { usize::MAX } else { scroll + margin };
        let wide: usize = if scroll > usize::MAX - (vh - 1) { usize::MAX } else { scroll + (vh - 1) };
        let max_visible: usize = if wide >= margin { wide - margin } else { 0 };
        if selected < min_visible {
            self.filter_vertical_scroll = if selected >= margin { selected - margin } else { 0 };
            return;
        }
        let mut s = scroll;
        if selected > max_visible {
            let a: usize = if selected > usize::MAX - margin { usize::MAX } else { selected + margin };
            let b: usize = if a == usize::MAX { usize::MAX } else { a + 1 };
            s = if b >= vh { b - vh } else { 0 };
        }
        let n = self.filter_editor.fields().len();
        let top: usize = if n >= 1 { n - 1 } else { 0 };
        self.filter_vertical_scroll = if s < top { s } else { top };
    }

    /// The hints under the filter panel.
    pub fn filter_panel_help_lines(&self) -> (r: Vec<String>)
        ensures
            r@.map_values(|l: String| l@) == help_lines(self.model().filter),
    {
        let editing = self.filter_editor.editing();
        let mut lines: Vec<String> = Vec::new();
        if editing {
            lines.push("enter/esc: done editing".to_string());
        } else {
            lines.push("enter: edit selected filter, f: hide filters".to_string());
        }
        match self.filter_editor.selected_kind() {
            Some(TaskFieldFilterKind::String) => {
                if !editing {
                    lines.push("s: cycle string mode".to_string());
                }
                lines.push("string: fuzzy | contains | regex".to_string());
            },
            Some(TaskFieldFilterKind::Labels) => {
                lines.push("labels: j/k cycle value, h/l move, a add, d delete".to_string());
            },
            Some(TaskFieldFilterKind::Date) => {
                lines.push("date: enter opens a calendar".to_string());
                lines.push("date: YYYY-MM-DD | MM-DD | today | tomorrow | mon/tue/... | start..end".to_string());
            },
            None => {},
        }
        assert(lines@.map_values(|l: String| l@) =~= help_lines(self.model().filter));
        lines
    }
}


/// The pane after one change in whichever date picker is open: the cell
/// edit's, which shadows the filter panel's, else the panel's, whose row
/// then shows the picker's text.
pub open spec fn calendar_stepped(m: TaskModel, step: crate::calendar::CalendarStep) -> TaskModel {
    match m.cell_edit {
        Some(e) if e.editor is Date => {
            let c = crate::calendar::step_of(e.editor->Date_calendar, step);
            TaskModel {
                cell_edit: Some(crate::task_edit::CellEditModel {
                    editor: crate::task_edit::EditorView::Date { text: (c.query, c.query.len() as int), calendar: c },
                    ..e
                }),
                ..m
            }
        },
        _ => match m.filter.calendar {
            Some(c) => with_filter(m, marked(fp::synced_calendar(PanelView { calendar: Some(crate::calendar::step_of(c, step)), ..m.filter }))),
            None => m,
        },
    }
}

impl TaskState {
    /// Takes one change in whichever date picker is open.
    pub fn with_calendar(&mut self, step: crate::calendar::CalendarStep)
        ensures
            final(self).model() == calendar_stepped(old(self).model(), step),
    {
        if self.cell_edit_owns_calendar() {
            let mut edit = self.cell_edit.take().unwrap();
            edit.calendar_step(step);
            self.cell_edit = Some(edit);
            return;
        }
        if self.filter_editor.calendar_step(step) {
            self.filter_editor.note_change();
        }
    }

    /// Moves the picker's highlight by days.
    pub fn filter_calendar_move_days(&mut self, delta: i64)
        ensures
            final(self).model() == calendar_stepped(old(self).model(), crate::calendar::CalendarStep::MoveDays(delta)),
    {
        self.with_calendar(crate::calendar::CalendarStep::MoveDays(delta));
    }

    /// Moves the picker's highlight by months.
    pub fn filter_calendar_move_months(&mut self, delta: i64)
        ensures
            final(self).model() == calendar_stepped(old(self).model(), crate::calendar::CalendarStep::MoveMonths(delta)),
    {
        self.with_calendar(crate::calendar::CalendarStep::MoveMonths(delta));
    }

    /// Moves the picker's highlight to today.
    pub fn filter_calendar_today(&mut self)
        ensures
            final(self).model() == calendar_stepped(old(self).model(), crate::calendar::CalendarStep::Today),
    {
        self.with_calendar(crate::calendar::CalendarStep::Today);
    }

    /// Types into the picker.
    pub fn filter_calendar_push_char(&mut self, ch: char)
        ensures
            final(self).model() == calendar_stepped(old(self).model(), crate::calendar::CalendarStep::PushChar(ch)),
    {
        self.with_calendar(crate::calendar::CalendarStep::PushChar(ch));
    }

    /// Deletes backwards in the picker.
    pub fn filter_calendar_pop_char(&mut self)
        ensures
            final(self).model() == calendar_stepped(old(self).model(), crate::calendar::CalendarStep::PopChar),
    {
        self.with_calendar(crate::calendar::CalendarStep::PopChar);
    }

    /// Moves the picker's caret.
    pub fn filter_calendar_move_caret(&mut self, delta: i64)
        ensures
            final(self).model() == calendar_stepped(old(self).model(), crate::calendar::CalendarStep::MoveCaret(delta)),
    {
        self.with_calendar(crate::calendar::CalendarStep::MoveCaret(delta));
    }

    /// Jumps the picker's caret to a range's start.
    pub fn filter_calendar_jump_to_start(&mut self)
        ensures
            final(self).model() == calendar_stepped(old(self).model(), crate::calendar::CalendarStep::JumpToStart),
    {
        self.with_calendar(crate::calendar::CalendarStep::JumpToStart);
    }

    /// Jumps the picker's caret to a range's end.
    pub fn filter_calendar_jump_to_end(&mut self)
        ensures
            final(self).model() == calendar_stepped(old(self).model(), crate::calendar::CalendarStep::JumpToEnd),
    {
        self.with_calendar(crate::calendar::CalendarStep::JumpToEnd);
    }

    /// Fills in the highlighted day if the picker's text names none.
    pub fn calendar_normalize(&mut self)
        ensures
            final(self).model() == calendar_stepped(old(self).model(), crate::calendar::CalendarStep::Normalize),
    {
        self.with_calendar(crate::calendar::CalendarStep::Normalize);
    }

    /// Empties the picker's text, leaving it open.
    pub fn calendar_clear_text(&mut self)
        ensures
            final(self).model() == calendar_stepped(old(self).model(), crate::calendar::CalendarStep::Clear),
    {
        self.with_calendar(crate::calendar::CalendarStep::Clear);
    }

    /// Fills in the filter picker's highlighted day if its text names none,
    /// writes it into the row, and closes it.
    pub fn filter_calendar_commit(&mut self)
        ensures
            final(self).model() == calendar_committed(old(self).model()),
    {
        let _ = self.filter_editor.calendar_step(crate::calendar::CalendarStep::Normalize);
        self.filter_editor.note_change();
        self.filter_editor.close_calendar();
    }

    /// Closes the filter picker and empties the row it was editing.
    pub fn filter_calendar_clear(&mut self)
        ensures
            final(self).model() == with_filter(old(self).model(),
                marked(fp::clear_current_of(PanelView { calendar: None, ..old(self).model().filter }))),
    {
        self.filter_editor.close_calendar();
        self.filter_clear_current();
    }
}


impl TaskState {
    /// Completes the typed prefix in the filter panel, answering whether
    /// anything matched.
    pub fn filter_complete(&mut self, delta: i32) -> (r: bool)
        ensures
            match old(self).model().filter.autocomplete {
                Some(m) => (final(self).model(), r) == (
                    with_filter(old(self).model(), fp::synced_ac(PanelView {
                        autocomplete: Some(crate::autocomplete::completed_of(m, delta as int).0),
                        ..old(self).model().filter
                    })),
                    crate::autocomplete::completed_of(m, delta as int).1,
                ),
                None => !r && final(self).model() == old(self).model(),
            },
    {
        self.filter_editor.complete(delta)
    }
}

} // verus!
