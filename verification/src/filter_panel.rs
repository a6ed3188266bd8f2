//! The filter panel: its sets of rows, the row and the set the keys act on,
//! the pickers open on a row, and the sidebar of named filter sets.

use vstd::prelude::*;
use crate::autocomplete::{
    AutocompleteModel, AutocompleteState, Candidate, CandidateView, Unresolved, added, caret_moved_of, caret_of,
    deleted_back_of, matches_of, refusal_is, resolution_of, text_of,
};
use crate::calendar::{CalendarStep, open_of, step_of};
use crate::calendar::{CalendarModel, CalendarState};
use crate::date::{CivilDate, valid_ymd};
use crate::filter::{
    ReadingView, filter_accepts, set_accepts, PreparedFilter, PreparedSetView, SavedFilterSet, SavedView, prepared_set, saved_view, who_of, label_values_of, parse_label_values, FieldView, SetView, TaskFieldFilterKind, TaskFieldStringMode, TaskFilterFieldState, TaskFilterSet, fields_view,
    row_active, texts,
};
use crate::filter_edit::{
    lemma_a_cleared_set_accepts_everything, cleared_row, cleared_set, count_active, due_window, iso_is, join_labels, joined, offer_all, restored_set, saved_rows,
    sets_view,
};
use crate::text::{chars_of, eq_chars, lower, lower_chars, string_from_chars, trim, trim_chars};
use crate::text_edit::{TextOp, text_after};

verus! {

/// The most saved entries the sidebar numbers at once.
pub const MAX_SIDEBAR_ROWS: usize = 9;

/// The sidebar's one-line prompt.
#[derive(Debug, PartialEq, Eq)]
pub enum SidebarPrompt {
    /// Typing a name to save the panel under.
    Save { text: String, caret: usize },
    /// Confirming that a named entry goes.
    ConfirmDelete { name: String },
    /// Confirming a load that would throw away an unnamed panel.
    ConfirmLoad { name: String },
}

/// The prompt as plain values.
pub enum PromptView {
    Save { text: Seq<char>, caret: int },
    ConfirmDelete { name: Seq<char> },
    ConfirmLoad { name: Seq<char> },
}

impl View for SidebarPrompt {
    type V = PromptView;

    open spec fn view(&self) -> PromptView {
        match self {
            SidebarPrompt::Save { text, caret } => PromptView::Save { text: text@, caret: *caret as int },
            SidebarPrompt::ConfirmDelete { name } => PromptView::ConfirmDelete { name: name@ },
            SidebarPrompt::ConfirmLoad { name } => PromptView::ConfirmLoad { name: name@ },
        }
    }
}

impl SidebarPrompt {
    /// Whether the prompt wants a yes or a no rather than typed text.
    pub fn is_confirmation(&self) -> (r: bool)
        ensures
            r == !(self@ is Save),
    {
        match self {
            SidebarPrompt::Save { .. } => false,
            _ => true,
        }
    }
}

/// The panel as plain values.
pub struct PanelView {
    pub visible: bool,
    pub editing: bool,
    /// The row cursor, shared by every set.
    pub selected: int,
    pub sets: Seq<SetView>,
    /// The set the keys act on.
    pub active: int,
    pub calendar: Option<CalendarModel>,
    pub autocomplete: Option<AutocompleteModel>,
    /// The named entry the panel is bound to.
    pub loaded: Option<Seq<char>>,
    pub dirty: bool,
    pub sidebar_visible: bool,
    pub sidebar_page_start: int,
    pub sidebar_rows: Option<int>,
    pub prompt: Option<PromptView>,
    pub notice: Option<Seq<char>>,
}

/// The filter panel.
#[derive(Debug)]
pub struct TaskFilterEditorState {
    visible: bool,
    editing: bool,
    selected: usize,
    sets: Vec<TaskFilterSet>,
    active: usize,
    calendar: Option<CalendarState>,
    autocomplete: Option<AutocompleteState>,
    loaded: Option<String>,
    dirty: bool,
    sidebar_visible: bool,
    sidebar_page_start: usize,
    sidebar_rows: Option<usize>,
    prompt: Option<SidebarPrompt>,
    notice: Option<String>,
}

/// An optional text as plain values.
pub open spec fn opt_text(o: Option<String>) -> Option<Seq<char>> {
    match o {
        Some(s) => Some(s@),
        None => None,
    }
}

impl View for TaskFilterEditorState {
    type V = PanelView;

    closed spec fn view(&self) -> PanelView {
        PanelView {
            visible: self.visible,
            editing: self.editing,
            selected: self.selected as int,
            sets: sets_view(self.sets@),
            active: self.active as int,
            calendar: match self.calendar {
                Some(c) => Some(c@),
                None => None,
            },
            autocomplete: match self.autocomplete {
                Some(a) => Some(a@),
                None => None,
            },
            loaded: opt_text(self.loaded),
            dirty: self.dirty,
            sidebar_visible: self.sidebar_visible,
            sidebar_page_start: self.sidebar_page_start as int,
            sidebar_rows: match self.sidebar_rows {
                Some(n) => Some(n as int),
                None => None,
            },
            prompt: match self.prompt {
                Some(p) => Some(p@),
                None => None,
            },
            notice: opt_text(self.notice),
        }
    }
}

/// The rows the panel shows: the active set's, or none when there is no
/// such set.
pub open spec fn panel_rows(p: PanelView) -> Seq<FieldView> {
    if 0 <= p.active < p.sets.len() { p.sets[p.active].fields } else { Seq::empty() }
}

/// Whether the cursor is on a row.
pub open spec fn has_row(p: PanelView) -> bool {
    0 <= p.selected < panel_rows(p).len()
}

/// The row under the cursor.
pub open spec fn row_of(p: PanelView) -> FieldView {
    panel_rows(p)[p.selected]
}

/// The panel with the row under the cursor replaced.
pub open spec fn with_row(p: PanelView, f: FieldView) -> PanelView {
    let s = p.sets[p.active];
    PanelView { sets: p.sets.update(p.active, SetView { fields: s.fields.update(p.selected, f), ..s }), ..p }
}

/// The panel with the row under the cursor changed as `f` says, when there
/// is one.
pub open spec fn on_row(p: PanelView, f: spec_fn(FieldView) -> FieldView) -> PanelView {
    if has_row(p) { with_row(p, f(row_of(p))) } else { p }
}

/// The panel out of edit mode, with no picker open.
pub open spec fn stopped(p: PanelView) -> PanelView {
    PanelView { editing: false, calendar: None, autocomplete: None, ..p }
}

/// How many rows hold typed text.
pub open spec fn count_typed(fs: Seq<FieldView>) -> nat
    decreases fs.len(),
{
    if fs.len() == 0 {
        0
    } else {
        count_typed(fs.drop_last()) + if trim(fs.last().value.0).len() > 0 { 1nat } else { 0nat }
    }
}

/// Whether a row excludes anything, label selections included.
pub open spec fn row_filters(f: FieldView) -> bool {
    row_active(f) || f.label_values.len() > 0
}

/// How many rows exclude anything, label selections included.
pub open spec fn count_filtering(fs: Seq<FieldView>) -> nat
    decreases fs.len(),
{
    if fs.len() == 0 {
        0
    } else {
        count_filtering(fs.drop_last()) + if row_filters(fs.last()) { 1nat } else { 0nat }
    }
}


/// Putting back the row that is there changes nothing.
proof fn lemma_same_row(p: PanelView)
    requires
        has_row(p),
    ensures
        with_row(p, row_of(p)) == p,
{
    let s = p.sets[p.active];
    assert(s.fields.update(p.selected, row_of(p)) =~= s.fields);
    assert(p.sets.update(p.active, SetView { fields: s.fields, ..s }) =~= p.sets);
}

/// The cursor a row up, when there are rows.
pub open spec fn move_up_of(p: PanelView) -> PanelView {
    if panel_rows(p).len() == 0 { p } else {
        PanelView { selected: if p.selected > 0 { p.selected - 1 } else { 0 }, ..p }
    }
}

/// The cursor a row down, stopping at the last row.
pub open spec fn move_down_of(p: PanelView) -> PanelView {
    if panel_rows(p).len() == 0 { p } else {
        PanelView {
            selected: if p.selected + 1 < panel_rows(p).len() { p.selected + 1 } else {
                panel_rows(p).len() - 1
            },
            ..p
        }
    }
}

/// The cursor a page of at least one row up.
pub open spec fn page_up_of(p: PanelView, page_size: usize) -> PanelView {
    if panel_rows(p).len() == 0 { p } else {
        PanelView {
            selected: {
                let step = if page_size < 1 { 1 } else { page_size as int };
                if p.selected > step { p.selected - step } else { 0 }
            },
            ..p
        }
    }
}

/// The cursor a page of at least one row down, stopping at the last row.
pub open spec fn page_down_of(p: PanelView, page_size: usize) -> PanelView {
    if panel_rows(p).len() == 0 { p } else {
        PanelView {
            selected: {
                let step = if page_size < 1 { 1 } else { page_size as int };
                let last = panel_rows(p).len() - 1;
                if p.selected + step < last { p.selected + step } else { last }
            },
            ..p
        }
    }
}

/// The row under the cursor emptied, and the completion editor with it.
pub open spec fn clear_current_of(p: PanelView) -> PanelView {
    on_row(
        PanelView {
            autocomplete: match p.autocomplete {
                Some(m) => Some(ac_cleared(m)),
                None => None,
            },
            ..p
        },
        |f: FieldView| cleared_row(f),
    )
}

/// The row under the cursor in a match mode, unless the row refuses it; the completion editor closes unless the row refused.
pub open spec fn set_mode_of(p: PanelView, mode: TaskFieldStringMode) -> PanelView {
    if has_row(p) && (row_of(p).kind != TaskFieldFilterKind::String
        || (mode == TaskFieldStringMode::List && !row_of(p).completes)) {
        p
    } else {
        PanelView {
            autocomplete: None,
            ..on_row(p, |f: FieldView| FieldView { string_mode: mode, ..f })
        }
    }
}

/// The row under the cursor in the next match mode, when it reads text; the completion editor closes unless the row refused.
pub open spec fn cycle_mode_of(p: PanelView) -> PanelView {
    if has_row(p) && row_of(p).kind != TaskFieldFilterKind::String {
        p
    } else {
        PanelView {
            autocomplete: None,
            ..on_row(p, |f: FieldView| FieldView { string_mode: next_mode(f.string_mode, f.completes), ..f })
        }
    }
}

/// A character typed into the completion editor when it is open, else into the row under the cursor, which then asks for a value.
pub open spec fn push_char_of(p: PanelView, ch: char) -> PanelView {
    match p.autocomplete {
        Some(m) => synced_ac(PanelView { autocomplete: Some(ac_typed(m, ch)), ..p }),
        None => on_row(p, |f: FieldView| if f.kind == TaskFieldFilterKind::Labels { f } else {
            FieldView { empty_required: false, value: text_after(f.value, TextOp::Insert(ch)), ..f }
        }),
    }
}

/// A character deleted backwards in the completion editor when it is open, else in the row under the cursor.
pub open spec fn pop_char_of(p: PanelView) -> PanelView {
    match p.autocomplete {
        Some(m) => synced_ac(PanelView { autocomplete: Some(deleted_back_of(m)), ..p }),
        None => on_row(p, |f: FieldView| text_edited_row(f, TextOp::DeleteBack)),
    }
}

/// The caret moved in the completion editor when it is open, else in the row under the cursor.
pub open spec fn move_query_caret_of(p: PanelView, delta: i64) -> PanelView {
    match p.autocomplete {
        Some(m) => synced_ac(PanelView { autocomplete: Some(caret_moved_of(m, delta as int)), ..p }),
        None => on_row(p, |f: FieldView| text_edited_row(f, TextOp::MoveCaret(delta))),
    }
}

/// A text edit on the row under the cursor, unless it is a labels row.
pub open spec fn edit_selected_text_of(p: PanelView, op: TextOp) -> PanelView {
    on_row(p, |f: FieldView| text_edited_row(f, op))
}

/// The caret at the end of the row under the cursor.
pub open spec fn reset_query_caret_of(p: PanelView) -> PanelView {
    on_row(p, |f: FieldView| FieldView { value: text_after(f.value, TextOp::JumpEnd), ..f })
}

/// Editing begun, the caret at the end of the row under the cursor.
pub open spec fn start_editing_of(p: PanelView) -> PanelView {
    on_row(PanelView { editing: true, ..p },
        |f: FieldView| FieldView { value: text_after(f.value, TextOp::JumpEnd), ..f })
}

/// The label cursor of a labels row one value left.
pub open spec fn move_label_cursor_left_of(p: PanelView) -> PanelView {
    on_row(p, |f: FieldView|
        if f.kind == TaskFieldFilterKind::Labels && f.label_values.len() > 0 {
            FieldView { label_cursor: if f.label_cursor > 0 { f.label_cursor - 1 } else { 0 }, ..f }
        } else {
            f
        })
}

/// The label cursor of a labels row one value right, stopping at the last.
pub open spec fn move_label_cursor_right_of(p: PanelView) -> PanelView {
    on_row(p, |f: FieldView|
        if f.kind == TaskFieldFilterKind::Labels && f.label_values.len() > 0 {
            FieldView {
                label_cursor: if f.label_cursor + 1 < f.label_values.len() { f.label_cursor + 1 } else { f.label_values.len() - 1 },
                ..f
            }
        } else {
            f
        })
}

/// The value under the label cursor stepped through the options.
pub open spec fn cycle_selected_label_of(p: PanelView, delta: i32) -> PanelView {
    on_row(p, |f: FieldView|
        if f.kind == TaskFieldFilterKind::Labels && f.label_options.len() > 0 { cycled_label(f, delta as int) } else { f })
}

/// The first option added after the label cursor.
pub open spec fn add_label_of(p: PanelView) -> PanelView {
    on_row(p, |f: FieldView|
        if f.kind == TaskFieldFilterKind::Labels && f.label_options.len() > 0 { label_added(f) } else { f })
}

/// The value under the label cursor deleted.
pub open spec fn delete_selected_label_of(p: PanelView) -> PanelView {
    on_row(p, |f: FieldView|
        if f.kind == TaskFieldFilterKind::Labels && f.label_values.len() > 0 { label_deleted(f) } else { f })
}

/// A set added after the active one, holding its rows cleared, and made active; the edit ends.
pub open spec fn add_set_of(p: PanelView) -> PanelView {
    stopped(PanelView {
        sets: p.sets.insert(p.active + 1, cleared_set(p.sets[p.active])),
        active: p.active + 1,
        ..p
    })
}

/// The active set removed unless it is the only one; the edit ends.
pub open spec fn remove_set_of(p: PanelView) -> PanelView {
    if p.sets.len() <= 1 { p } else {
        stopped(PanelView {
            sets: p.sets.remove(p.active),
            active: if p.active < p.sets.len() - 2 { p.active } else { p.sets.len() - 2 },
            ..p
        })
    }
}

/// Another set made active, wrapping; the edit ends and the caret goes to the end of the row.
pub open spec fn select_set_of(p: PanelView, delta: i32) -> PanelView {
    if p.sets.len() <= 1 { p } else {
        on_row(
            stopped(PanelView {
                active: (p.active + delta) % (p.sets.len() as int),
                ..p
            }),
            |f: FieldView| FieldView { value: text_after(f.value, TextOp::JumpEnd), ..f },
        )
    }
}

/// The sidebar shown or hidden; hiding it closes its prompt and report.
pub open spec fn toggle_sidebar_of(p: PanelView) -> PanelView {
    if p.sidebar_visible {
        PanelView { sidebar_visible: false, prompt: None, notice: None, ..p }
    } else {
        PanelView { sidebar_visible: true, ..p }
    }
}

/// The sidebar told how many entries it has room for.
pub open spec fn set_sidebar_rows_of(p: PanelView, rows: usize) -> PanelView {
    (PanelView { sidebar_rows: Some(rows as int), ..p })
}

/// The numbered window paged, held between the first page and the last.
pub open spec fn page_sidebar_of(p: PanelView, delta: i32, total: usize) -> PanelView {
    (PanelView {
        sidebar_page_start: if total <= window_of(p) { 0 } else {
            let w = window_of(p);
            let last = (total - 1) / w * w;
            let start = p.sidebar_page_start + delta * w;
            if start < 0 { 0 } else if start > last { last } else { start }
        },
        ..p
    })
}

/// The save prompt open on the bound name, caret at its end, with the sidebar.
pub open spec fn prompt_save_of(p: PanelView) -> PanelView {
    (PanelView {
        sidebar_visible: true,
        notice: None,
        prompt: Some(PromptView::Save {
            text: match p.loaded { Some(n) => n, None => Seq::empty() },
            caret: match p.loaded { Some(n) => n.len() as int, None => 0 },
        }),
        ..p
    })
}

/// The confirmation for a load that would lose work open, with the sidebar.
pub open spec fn prompt_confirm_load_of(p: PanelView, name: Seq<char>) -> PanelView {
    (PanelView {
        sidebar_visible: true,
        notice: None,
        prompt: Some(PromptView::ConfirmLoad { name: name }),
        ..p
    })
}

/// A character typed at the save prompt; any report goes.
pub open spec fn prompt_push_char_of(p: PanelView, ch: char) -> PanelView {
    match p.prompt {
        Some(PromptView::Save { text, caret }) => PanelView {
            notice: None,
            prompt: Some(PromptView::Save { text: text_after((text, caret), TextOp::Insert(ch)).0, caret: caret + 1 }),
            ..p
        },
        _ => PanelView { notice: None, ..p },
    }
}

/// A character deleted before the save prompt's caret; any report goes.
pub open spec fn prompt_pop_char_of(p: PanelView) -> PanelView {
    match p.prompt {
        Some(PromptView::Save { text, caret }) => PanelView {
            notice: None,
            prompt: Some(PromptView::Save {
                text: text_after((text, caret), TextOp::DeleteBack).0,
                caret: text_after((text, caret), TextOp::DeleteBack).1,
            }),
            ..p
        },
        _ => PanelView { notice: None, ..p },
    }
}

/// The save prompt's caret moved, held to its text.
pub open spec fn prompt_move_caret_of(p: PanelView, delta: i64) -> PanelView {
    match p.prompt {
        Some(PromptView::Save { text, caret }) => PanelView {
            prompt: Some(PromptView::Save { text, caret: text_after((text, caret), TextOp::MoveCaret(delta)).1 }),
            ..p
        },
        _ => p,
    }
}

/// The panel shown or hidden; hiding it ends the edit.
pub open spec fn toggle_visible_of(p: PanelView) -> PanelView {
    (PanelView {
        visible: !p.visible,
        editing: p.editing && !p.visible,
        ..p
    })
}

/// The edit ended, with no picker open.
pub open spec fn stop_editing_of(p: PanelView) -> PanelView {
    stopped(p)
}

impl TaskFilterEditorState {
    /// The completion editor is in a reachable state, a save prompt's caret
    /// is inside its text, and the active set is one of the sets.
    #[verifier::type_invariant]
    closed spec fn inv(self) -> bool {
        &&& self.autocomplete matches Some(a) ==> a.wf()
        &&& self.prompt matches Some(SidebarPrompt::Save { text, caret }) ==> caret <= text@.len()
        &&& self.sets.len() == 0 || self.active < self.sets.len()
    }

    /// A panel with one set of the given rows, hidden, the cursor on the
    /// first row.
    pub open spec fn from_fields_view(fields: Seq<FieldView>) -> PanelView {
        PanelView {
            visible: false,
            editing: false,
            selected: 0,
            sets: seq![SetView { fields, negated: false, unresolved: Seq::empty() }],
            active: 0,
            calendar: None,
            autocomplete: None,
            loaded: None,
            dirty: false,
            sidebar_visible: false,
            sidebar_page_start: 0,
            sidebar_rows: None,
            prompt: None,
            notice: None,
        }
    }

    /// A panel with one set made of `fields`, hidden, with the cursor on the
    /// first row.
    pub fn from_fields(fields: Vec<TaskFilterFieldState>) -> (r: Self)
        ensures
            r@ == Self::from_fields_view(fields_view(fields@)),
            r@ == (PanelView {
                visible: false,
                editing: false,
                selected: 0,
                sets: seq![SetView { fields: fields_view(fields@), negated: false, unresolved: Seq::empty() }],
                active: 0,
                calendar: None,
                autocomplete: None,
                loaded: None,
                dirty: false,
                sidebar_visible: false,
                sidebar_page_start: 0,
                sidebar_rows: None,
                prompt: None,
                notice: None,
            }),
    {
        let set = TaskFilterSet { fields, negated: false, unresolved: Vec::new() };
        assert(crate::filter::saved_view(set.unresolved@) =~= Seq::<crate::filter::SavedView>::empty());
        let mut sets: Vec<TaskFilterSet> = Vec::new();
        sets.push(set);
        let r = TaskFilterEditorState {
            visible: false,
            editing: false,
            selected: 0,
            sets,
            active: 0,
            calendar: None,
            autocomplete: None,
            loaded: None,
            dirty: false,
            sidebar_visible: false,
            sidebar_page_start: 0,
            sidebar_rows: None,
            prompt: None,
            notice: None,
        };
        assert(sets_view(r.sets@) =~= seq![set@]);
        r
    }

    /// Whether the cursor is on a row.
    fn row_exists(&self) -> (r: bool)
        ensures
            r == has_row(self@),
    {
        self.active < self.sets.len() && self.selected < self.sets[self.active].fields.len()
    }

    /// A copy of the row under the cursor.
    fn selected_copy(&self) -> (r: TaskFilterFieldState)
        requires
            has_row(self@),
        ensures
            r@ == row_of(self@),
    {
        self.sets[self.active].fields[self.selected].clone()
    }

    /// Puts a row in place of the one under the cursor.
    fn put_row(&mut self, f: TaskFilterFieldState)
        requires
            has_row(old(self)@),
        ensures
            final(self)@ == with_row(old(self)@, f@),
    {
        proof { use_type_invariant(&*self); }
        let ghost p = self@;
        let a = self.active;
        let s = self.selected;
        let mut sets: Vec<TaskFilterSet> = Vec::new();
        std::mem::swap(&mut sets, &mut self.sets);
        let ghost before = sets@;
        assert(sets_view(before) == p.sets);
        let mut set = sets.remove(a);
        let ghost fields_before = set.fields@;
        let _ = set.fields.remove(s);
        set.fields.insert(s, f);
        assert(set.fields@ == fields_before.update(s as int, f));
        assert(fields_view(set.fields@) =~= p.sets[a as int].fields.update(s as int, f@));
        sets.insert(a, set);
        assert(sets@ == before.update(a as int, set));
        self.sets = sets;
        assert(sets_view(self.sets@) =~= with_row(p, f@).sets);
    }

    /// Whether the panel is shown.
    pub fn visible(&self) -> (r: bool)
        ensures
            r == self@.visible,
    {
        self.visible
    }

    /// Whether a row is being edited.
    pub fn editing(&self) -> (r: bool)
        ensures
            r == self@.editing,
    {
        self.editing
    }

    /// The row cursor.
    pub fn selected(&self) -> (r: usize)
        ensures
            r == self@.selected,
    {
        self.selected
    }

    /// Shows or hides the panel; hiding it ends the edit.
    pub fn toggle_visible(&mut self)
        ensures
            final(self)@ == toggle_visible_of(old(self)@),
    {
        proof { use_type_invariant(&*self); }
        self.visible = !self.visible;
        if !self.visible {
            self.editing = false;
        }
    }

    /// The rows of the set the panel shows, or none before there is one.
    pub fn fields(&self) -> (r: &[TaskFilterFieldState])
        ensures
            fields_view(r@) == panel_rows(self@),
    {
        if self.active < self.sets.len() {
            self.sets[self.active].fields.as_slice()
        } else {
            let r: &[TaskFilterFieldState] = &[];
            assert(fields_view(r@) =~= Seq::<FieldView>::empty());
            r
        }
    }

    /// The row under the cursor, if there is one.
    pub fn selected_field(&self) -> (r: Option<&TaskFilterFieldState>)
        ensures
            r is Some <==> has_row(self@),
            r matches Some(f) ==> f@ == row_of(self@),
    {
        if self.row_exists() {
            Some(&self.sets[self.active].fields[self.selected])
        } else {
            None
        }
    }

    /// What kind of value the row under the cursor tests.
    pub fn selected_kind(&self) -> (r: Option<TaskFieldFilterKind>)
        ensures
            r == if has_row(self@) { Some(row_of(self@).kind) } else { None },
    {
        match self.selected_field() {
            Some(f) => Some(f.spec.kind),
            None => None,
        }
    }

    /// The label of the row under the cursor.
    pub fn selected_label(&self) -> (r: Option<&str>)
        ensures
            r is Some <==> has_row(self@),
            r matches Some(l) ==> l@ == row_of(self@).label,
    {
        match self.selected_field() {
            Some(f) => Some(f.spec.label.as_str()),
            None => None,
        }
    }

    /// How many shown rows hold typed text.
    pub fn active_count(&self) -> (r: usize)
        ensures
            r == count_typed(panel_rows(self@)),
    {
        let rows = self.fields();
        let ghost fs = fields_view(rows@);
        let mut n: usize = 0;
        let mut i: usize = 0;
        while i < rows.len()
            invariant
                i <= rows.len(),
                fs == fields_view(rows@),
                n == count_typed(fs.take(i as int)),
                n <= i,
            decreases rows.len() - i,
        {
            assert(fs.take(i as int + 1).drop_last() == fs.take(i as int));
            assert(fs.take(i as int + 1).last() == fs[i as int]);
            if trim_chars(rows[i].value.chars()).len() > 0 {
                n += 1;
            }
            i += 1;
        }
        assert(fs.take(i as int) == fs);
        n
    }

    /// How many shown rows exclude anything, label selections and
    /// require-empty counted with typed text.
    pub fn active_filter_count(&self) -> (r: usize)
        ensures
            r == count_filtering(panel_rows(self@)),
    {
        let rows = self.fields();
        let ghost fs = fields_view(rows@);
        let mut n: usize = 0;
        let mut i: usize = 0;
        while i < rows.len()
            invariant
                i <= rows.len(),
                fs == fields_view(rows@),
                n == count_filtering(fs.take(i as int)),
                n <= i,
            decreases rows.len() - i,
        {
            assert(fs.take(i as int + 1).drop_last() == fs.take(i as int));
            assert(fs.take(i as int + 1).last() == fs[i as int]);
            if rows[i].is_active() || rows[i].label_values.len() > 0 {
                n += 1;
            }
            i += 1;
        }
        assert(fs.take(i as int) == fs);
        n
    }

    /// Moves the cursor up a row.
    pub fn move_up(&mut self)
        ensures
            final(self)@ == move_up_of(old(self)@),
    {
        proof { use_type_invariant(&*self); }
        if self.fields().len() == 0 {
            return;
        }
        self.selected = if self.selected > 0 { self.selected - 1 } else { 0 };
    }

    /// Moves the cursor down a row, stopping at the last.
    pub fn move_down(&mut self)
        ensures
            final(self)@ == move_down_of(old(self)@),
    {
        proof { use_type_invariant(&*self); }
        let n = self.fields().len();
        if n == 0 {
            return;
        }
        self.selected = if self.selected < n - 1 { self.selected + 1 } else { n - 1 };
    }

    /// Moves the cursor up a page of at least one row.
    pub fn page_up(&mut self, page_size: usize)
        ensures
            final(self)@ == page_up_of(old(self)@, page_size),
    {
        proof { use_type_invariant(&*self); }
        if self.fields().len() == 0 {
            return;
        }
        let step = if page_size < 1 { 1 } else { page_size };
        self.selected = if self.selected > step { self.selected - step } else { 0 };
    }

    /// Moves the cursor down a page of at least one row, stopping at the last.
    pub fn page_down(&mut self, page_size: usize)
        ensures
            final(self)@ == page_down_of(old(self)@, page_size),
    {
        proof { use_type_invariant(&*self); }
        let n = self.fields().len();
        if n == 0 {
            return;
        }
        let step = if page_size < 1 { 1 } else { page_size };
        let last = n - 1;
        self.selected = if self.selected < last && step < last - self.selected { self.selected + step } else { last };
    }
}


/// The editor with everything picked and typed taken out.
pub open spec fn ac_cleared(m: AutocompleteModel) -> AutocompleteModel {
    AutocompleteModel { items: Seq::empty(), buffer: (Seq::<char>::empty(), 0int), item_caret: 0, cycle: None, ..m }
}

/// The editor after typing a character.
pub open spec fn ac_typed(m: AutocompleteModel, ch: char) -> AutocompleteModel {
    AutocompleteModel { buffer: text_after(m.buffer, TextOp::Insert(ch)), cycle: None, ..m }
}

/// The row under the cursor showing what the completion editor holds: its
/// text, with the caret where the editor has it, and no require-empty.
pub open spec fn synced_ac(p: PanelView) -> PanelView {
    match p.autocomplete {
        Some(m) => {
            let t = text_of(m);
            let c = if caret_of(m) <= t.len() { caret_of(m) } else { t.len() as int };
            on_row(p, |f: FieldView| FieldView { empty_required: false, value: (t, c), ..f })
        },
        None => p,
    }
}

/// The next match mode in the ring; `list` is in it only on rows with a
/// directory.
pub open spec fn next_mode(m: TaskFieldStringMode, completes: bool) -> TaskFieldStringMode {
    match m {
        TaskFieldStringMode::Fuzzy => TaskFieldStringMode::Substring,
        TaskFieldStringMode::Substring => TaskFieldStringMode::Regex,
        TaskFieldStringMode::Regex => if completes { TaskFieldStringMode::List } else { TaskFieldStringMode::Fuzzy },
        TaskFieldStringMode::List => TaskFieldStringMode::Fuzzy,
    }
}

/// A row's text after an edit, unless it is a labels row, whose text is
/// built from its values.
pub open spec fn text_edited_row(f: FieldView, op: TextOp) -> FieldView {
    if f.kind == TaskFieldFilterKind::Labels { f } else { FieldView { value: text_after(f.value, op), ..f } }
}

impl TaskFilterEditorState {
    /// Takes the completion editor out of the panel.
    fn take_autocomplete(&mut self) -> (r: Option<AutocompleteState>)
        ensures
            final(self)@ == (PanelView { autocomplete: None, ..old(self)@ }),
            match r {
                Some(a) => a.wf() && old(self)@.autocomplete == Some(a@),
                None => old(self)@.autocomplete is None,
            },
    {
        proof { use_type_invariant(&*self); }
        let mut a: Option<AutocompleteState> = None;
        std::mem::swap(&mut a, &mut self.autocomplete);
        a
    }

    /// Takes the date picker out of the panel.
    fn take_calendar(&mut self) -> (r: Option<CalendarState>)
        ensures
            final(self)@ == (PanelView { calendar: None, ..old(self)@ }),
            match r {
                Some(c) => old(self)@.calendar == Some(c@),
                None => old(self)@.calendar is None,
            },
    {
        proof { use_type_invariant(&*self); }
        let mut c: Option<CalendarState> = None;
        std::mem::swap(&mut c, &mut self.calendar);
        c
    }

    /// Copies the completion editor's text and caret into the row under the
    /// cursor.
    pub fn sync_autocomplete_query(&mut self)
        ensures
            final(self)@ == synced_ac(old(self)@),
    {
        proof { use_type_invariant(&*self); }
        let (text, caret) = match &self.autocomplete {
            Some(a) => (a.text(), a.caret()),
            None => return,
        };
        if self.row_exists() {
            let mut f = self.selected_copy();
            f.empty_required = false;
            f.value.set_text(text.as_str());
            f.value.set_caret(caret);
            self.put_row(f);
        }
    }

    /// Empties the row under the cursor, and the completion editor with it;
    /// the row keeps its match mode.
    pub fn clear_current(&mut self)
        ensures
            final(self)@ == clear_current_of(old(self)@),
    {
        proof { use_type_invariant(&*self); }
        match self.take_autocomplete() {
            Some(mut a) => {
                a.clear();
                proof { use_type_invariant(&*self); }
                self.autocomplete = Some(a);
            },
            None => {},
        }
        if self.row_exists() {
            let mut f = self.selected_copy();
            f.clear_value();
            self.put_row(f);
        }
    }

    /// Switches the row under the cursor to a match mode, where the row
    /// reads text and, for `list`, has a directory; closes the completion
    /// editor unless the row refused.
    pub fn set_mode(&mut self, mode: TaskFieldStringMode)
        ensures
            final(self)@ == set_mode_of(old(self)@, mode),
    {
        proof { use_type_invariant(&*self); }
        if self.row_exists() {
            let mut f = self.selected_copy();
            if f.spec.kind != TaskFieldFilterKind::String {
                proof { lemma_same_row(self@); }
                return;
            }
            if mode == TaskFieldStringMode::List && !f.spec.completes {
                return;
            }
            f.string_mode = mode;
            self.put_row(f);
        }
        proof { use_type_invariant(&*self); }
        self.autocomplete = None;
    }

    /// Moves the row under the cursor to the next match mode, where the row
    /// reads text; closes the completion editor unless the row refused.
    pub fn cycle_mode(&mut self)
        ensures
            final(self)@ == cycle_mode_of(old(self)@),
    {
        proof { use_type_invariant(&*self); }
        if self.row_exists() {
            let mut f = self.selected_copy();
            if f.spec.kind != TaskFieldFilterKind::String {
                proof { lemma_same_row(self@); }
                return;
            }
            f.string_mode = match f.string_mode {
                TaskFieldStringMode::Fuzzy => TaskFieldStringMode::Substring,
                TaskFieldStringMode::Substring => TaskFieldStringMode::Regex,
                TaskFieldStringMode::Regex => if f.spec.completes { TaskFieldStringMode::List } else { TaskFieldStringMode::Fuzzy },
                TaskFieldStringMode::List => TaskFieldStringMode::Fuzzy,
            };
            self.put_row(f);
        }
        proof { use_type_invariant(&*self); }
        self.autocomplete = None;
    }

    /// Types a character: into the completion editor when it is open, else
    /// into the row under the cursor, which then no longer asks for no value.
    /// A labels row takes no typing.
    pub fn push_char(&mut self, ch: char)
        ensures
            final(self)@ == push_char_of(old(self)@, ch),
    {
        proof { use_type_invariant(&*self); }
        match self.take_autocomplete() {
            Some(mut a) => {
                a.push_char(ch);
                proof { use_type_invariant(&*self); }
                self.autocomplete = Some(a);
                self.sync_autocomplete_query();
                return;
            },
            None => {},
        }
        if self.row_exists() {
            let mut f = self.selected_copy();
            if f.spec.kind == TaskFieldFilterKind::Labels {
                proof { lemma_same_row(self@); }
                return;
            }
            f.empty_required = false;
            f.value.insert(ch);
            self.put_row(f);
        }
    }

    /// Deletes backwards: in the completion editor when it is open, else in
    /// the row under the cursor unless it is a labels row.
    pub fn pop_char(&mut self)
        ensures
            final(self)@ == pop_char_of(old(self)@),
    {
        proof { use_type_invariant(&*self); }
        match self.take_autocomplete() {
            Some(mut a) => {
                a.delete_back();
                proof { use_type_invariant(&*self); }
                self.autocomplete = Some(a);
                self.sync_autocomplete_query();
                return;
            },
            None => {},
        }
        self.edit_selected_text(TextOp::DeleteBack);
    }

    /// Moves the caret: in the completion editor when it is open, else in
    /// the row under the cursor unless it is a labels row.
    pub fn move_query_caret(&mut self, delta: i64)
        ensures
            final(self)@ == move_query_caret_of(old(self)@, delta),
    {
        proof { use_type_invariant(&*self); }
        match self.take_autocomplete() {
            Some(mut a) => {
                a.move_caret(delta);
                proof { use_type_invariant(&*self); }
                self.autocomplete = Some(a);
                self.sync_autocomplete_query();
                return;
            },
            None => {},
        }
        self.edit_selected_text(TextOp::MoveCaret(delta));
    }

    /// Runs a text edit on the row under the cursor, unless it is a labels
    /// row, whose text is built from its values.
    pub fn edit_selected_text(&mut self, op: TextOp)
        ensures
            final(self)@ == edit_selected_text_of(old(self)@, op),
    {
        proof { use_type_invariant(&*self); }
        if self.row_exists() {
            let mut f = self.selected_copy();
            if f.spec.kind == TaskFieldFilterKind::Labels {
                proof { lemma_same_row(self@); }
                return;
            }
            f.value.apply(op);
            self.put_row(f);
        }
    }

    /// Puts the caret at the end of the row under the cursor.
    pub fn reset_query_caret(&mut self)
        ensures
            final(self)@ == reset_query_caret_of(old(self)@),
    {
        proof { use_type_invariant(&*self); }
        if self.row_exists() {
            let mut f = self.selected_copy();
            f.value.jump_end();
            self.put_row(f);
        }
    }

    /// Starts editing the row under the cursor, caret at the end.
    pub fn start_editing(&mut self)
        ensures
            final(self)@ == start_editing_of(old(self)@),
    {
        proof { use_type_invariant(&*self); }
        self.editing = true;
        self.reset_query_caret();
    }

    /// Stops editing and closes any picker.
    pub fn stop_editing(&mut self)
        ensures
            final(self)@ == stop_editing_of(old(self)@),
    {
        proof { use_type_invariant(&*self); }
        self.editing = false;
        self.calendar = None;
        self.autocomplete = None;
    }
}


/// A row with require-empty switched, which drops its value when it turns
/// on.
pub open spec fn toggled_empty(f: FieldView) -> FieldView {
    if f.empty_required {
        FieldView { empty_required: false, ..f }
    } else {
        FieldView { empty_required: true, value: (Seq::empty(), 0), label_values: Seq::empty(), label_cursor: 0, ..f }
    }
}

/// A labels row's text: its values joined, caret at the end.
pub open spec fn with_labels(f: FieldView, lv: Seq<Seq<char>>, cursor: int) -> FieldView {
    FieldView { label_values: lv, label_cursor: cursor, value: (joined(lv), joined(lv).len() as int), ..f }
}

proof fn lemma_wrap(index: int, delta: int, n: int, du: int, next: int)
    requires
        0 <= index < n,
        delta >= 0 ==> du == delta % n,
        delta < 0 ==> du == (n - (-delta) % n) % n,
        next == (index + du) % n,
    ensures
        next == (index + delta) % n,
        0 <= next < n,
{
    if delta >= 0 {
        vstd::arithmetic::div_mod::lemma_add_mod_noop(index, delta, n);
        vstd::arithmetic::div_mod::lemma_mod_twice(index, n);
        assert(index % n == index) by { vstd::arithmetic::div_mod::lemma_small_mod(index as nat, n as nat); }
        vstd::arithmetic::div_mod::lemma_add_mod_noop(index, du, n);
        vstd::arithmetic::div_mod::lemma_mod_twice(delta, n);
    } else {
        let a = (-delta) % n;
        vstd::arithmetic::div_mod::lemma_mod_bound(-delta, n);
        vstd::arithmetic::div_mod::lemma_fundamental_div_mod(-delta, n);
        let q = (-delta) / n;
        assert(delta == -(n * q) - a);
        assert(index + delta == (index + n - a) + n * (-q - 1)) by (nonlinear_arith)
            requires delta == -(n * q) - a;
        vstd::arithmetic::div_mod::lemma_mod_multiples_vanish(-q - 1, index + n - a, n);
        assert((index + delta) % n == (index + n - a) % n);
        vstd::arithmetic::div_mod::lemma_add_mod_noop(index, n - a, n);
        assert(index % n == index) by { vstd::arithmetic::div_mod::lemma_small_mod(index as nat, n as nat); }
        vstd::arithmetic::div_mod::lemma_mod_twice(n - a, n);
        vstd::arithmetic::div_mod::lemma_add_mod_noop(index, du, n);
    }
}

/// Where the first option equal to `x`, ignoring ASCII case, stands at or
/// after `i`, or -1.
pub open spec fn alike_from(opts: Seq<Seq<char>>, x: Seq<char>, i: int) -> int
    decreases opts.len() - i,
{
    if i < 0 || i >= opts.len() {
        -1
    } else if lower(opts[i]) == lower(x) {
        i
    } else {
        alike_from(opts, x, i + 1)
    }
}

/// A labels row after stepping the value under its cursor through the
/// options by `delta`, wrapping; an empty row first takes the first option.
pub open spec fn cycled_label(f: FieldView, delta: int) -> FieldView {
    let lv0 = if f.label_values.len() == 0 { seq![f.label_options[0]] } else { f.label_values };
    let cursor0 = if f.label_values.len() == 0 { 0 } else { f.label_cursor };
    let at = if cursor0 < lv0.len() - 1 { cursor0 } else { lv0.len() - 1 };
    let found = alike_from(f.label_options, lv0[at], 0);
    let index = if found >= 0 { found } else { 0 };
    let next = (index + delta) % (f.label_options.len() as int);
    let lv = lv0.update(at, f.label_options[next]);
    FieldView { empty_required: false, ..with_labels(f, lv, cursor0) }
}

/// A labels row with the first option added after its cursor, the cursor on
/// it.
pub open spec fn label_added(f: FieldView) -> FieldView {
    let at = if f.label_cursor + 1 < f.label_values.len() { f.label_cursor + 1 } else { f.label_values.len() as int };
    FieldView { empty_required: false, ..with_labels(f, f.label_values.insert(at, f.label_options[0]), at) }
}

/// A labels row with the value under its cursor deleted.
pub open spec fn label_deleted(f: FieldView) -> FieldView {
    let at = if f.label_cursor < f.label_values.len() - 1 { f.label_cursor } else { f.label_values.len() - 1 };
    let lv = f.label_values.remove(at);
    if lv.len() == 0 {
        FieldView { label_values: lv, label_cursor: 0, value: (Seq::empty(), 0), ..f }
    } else {
        with_labels(f, lv, if f.label_cursor >= lv.len() { lv.len() - 1 } else { f.label_cursor })
    }
}

/// The first candidate whose display is `name`, ignoring ASCII case, at or
/// after `i`, or -1.
pub open spec fn candidate_named(cands: Seq<CandidateView>, name: Seq<char>, i: int) -> int
    decreases cands.len() - i,
{
    if i < 0 || i >= cands.len() {
        -1
    } else if lower(cands[i].1) == lower(name) {
        i
    } else {
        candidate_named(cands, name, i + 1)
    }
}

/// The names that name a candidate, as those candidates, in order; names
/// that name none are dropped.
pub open spec fn resolved_names(names: Seq<Seq<char>>, cands: Seq<CandidateView>) -> Seq<CandidateView>
    decreases names.len(),
{
    if names.len() == 0 {
        Seq::empty()
    } else {
        let rest = resolved_names(names.drop_last(), cands);
        let i = candidate_named(cands, names.last(), 0);
        if i >= 0 { rest.push(cands[i]) } else { rest }
    }
}

/// The displays of some candidates.
pub open spec fn displays(items: Seq<CandidateView>) -> Seq<Seq<char>> {
    items.map_values(|c: CandidateView| c.1)
}

/// The items a successful commit leaves, by what the text resolved to.
pub open spec fn committed_items(m: AutocompleteModel, i: int) -> Seq<CandidateView> {
    if i == -1 {
        m.items
    } else if i >= 0 {
        added(m, m.candidates[i]).0
    } else {
        added(m, matches_of(m.candidates, m.items, trim(m.buffer.0))[0]).0
    }
}

/// The completion editor closed, and what it resolved written into the row
/// under the cursor, joined as a labels row joins its values, caret at the
/// end; on a refusal the items picked before are written.
pub open spec fn commit_autocomplete_of(p: PanelView) -> PanelView {
    match p.autocomplete {
        None => p,
        Some(m) => {
            let items = match resolution_of(m) {
                Ok(i) => committed_items(m, i),
                Err(_) => m.items,
            };
            on_row(PanelView { autocomplete: None, ..p }, |f: FieldView| with_text_at_end(f, joined(displays(items))))
        },
    }
}

/// Whether the row under the cursor picks its values from a directory.
pub open spec fn completes_of(p: PanelView) -> bool {
    has_row(p) && row_of(p).completes && row_of(p).string_mode == TaskFieldStringMode::List
}

/// The row under the cursor with a text put in, caret at the end.
pub open spec fn with_text_at_end(f: FieldView, t: Seq<char>) -> FieldView {
    FieldView { value: (t, t.len() as int), ..f }
}

proof fn lemma_first_alike(opts: Seq<Seq<char>>, x: Seq<char>, i: int, j: int)
    requires
        0 <= j <= i,
        alike_from(opts, x, 0) == alike_from(opts, x, j),
        forall|k: int| j <= k < i ==> lower(#[trigger] opts[k]) != lower(x),
    ensures
        alike_from(opts, x, 0) == alike_from(opts, x, i),
    decreases i - j,
{
    if j < i {
        assert(lower(opts[j]) != lower(x));
        lemma_first_alike(opts, x, i, j + 1);
    }
}

/// Where the first option equal to `x`, ignoring ASCII case, stands.
fn find_alike(opts: &Vec<String>, x: &String) -> (r: Option<usize>)
    ensures
        match r {
            Some(i) => i == alike_from(texts(opts@), x@, 0) && i < opts@.len(),
            None => alike_from(texts(opts@), x@, 0) == -1,
        },
{
    let ghost os = texts(opts@);
    let want = lower_chars(&chars_of(x.as_str()));
    let mut i: usize = 0;
    while i < opts.len()
        invariant
            i <= opts.len(),
            os == texts(opts@),
            want@ == lower(x@),
            alike_from(os, x@, 0) == alike_from(os, x@, i as int),
        decreases opts.len() - i,
    {
        if eq_chars(&lower_chars(&chars_of(opts[i].as_str())), &want) {
            return Some(i);
        }
        i += 1;
    }
    None
}

/// The first candidate whose display is `name`, ignoring ASCII case.
fn find_candidate(candidates: &Vec<Candidate>, name: &String) -> (r: Option<usize>)
    ensures
        match r {
            Some(k) => k == candidate_named(candidates.deep_view(), name@, 0) && k < candidates@.len(),
            None => candidate_named(candidates.deep_view(), name@, 0) == -1,
        },
{
    let ghost cs = candidates.deep_view();
    let want = lower_chars(&chars_of(name.as_str()));
    let mut j: usize = 0;
    while j < candidates.len()
        invariant
            j <= candidates.len(),
            cs == candidates.deep_view(),
            want@ == lower(name@),
            candidate_named(cs, name@, 0) == candidate_named(cs, name@, j as int),
        decreases candidates.len() - j,
    {
        if eq_chars(&lower_chars(&chars_of(candidates[j].display.as_str())), &want) {
            return Some(j);
        }
        j += 1;
    }
    None
}

/// The candidates some names name, ignoring ASCII case, in the names' order.
fn resolve_names(names: &Vec<String>, candidates: &Vec<Candidate>) -> (r: Vec<Candidate>)
    ensures
        r.deep_view() == resolved_names(texts(names@), candidates.deep_view()),
{
    let ghost ns = texts(names@);
    let ghost cs = candidates.deep_view();
    let mut out: Vec<Candidate> = Vec::new();
    let mut i: usize = 0;
    while i < names.len()
        invariant
            i <= names.len(),
            ns == texts(names@),
            cs == candidates.deep_view(),
            out.deep_view() == resolved_names(ns.take(i as int), cs),
        decreases names.len() - i,
    {
        assert(ns.take(i as int + 1).drop_last() == ns.take(i as int));
        assert(ns.take(i as int + 1).last() == ns[i as int]);
        let found = find_candidate(candidates, &names[i]);
        let ghost before = out.deep_view();
        match found {
            Some(k) => {
                out.push(candidates[k].clone());
                assert(out.deep_view() =~= before.push(cs[k as int]));
            },
            None => {},
        }
        i += 1;
    }
    assert(ns.take(i as int) == ns);
    out
}

/// The displays of some candidates joined as a labels row joins its values.
fn join_displays_bar(items: &Vec<Candidate>) -> (r: String)
    ensures
        r@ == joined(displays(items.deep_view())),
{
    let mut names: Vec<String> = Vec::new();
    let mut i: usize = 0;
    while i < items.len()
        invariant
            i <= items.len(),
            names@.len() == i,
            forall|k: int| 0 <= k < i ==> (#[trigger] names@[k])@ == items.deep_view()[k].1,
        decreases items.len() - i,
    {
        names.push(items[i].display.clone());
        i += 1;
    }
    assert(texts(names@) =~= displays(items.deep_view()));
    join_labels(&names)
}

impl TaskFilterEditorState {
    /// Switches require-empty on the row under the cursor, where the field
    /// can be empty, answering whether it changed; turning it on drops the
    /// row's value.
    pub fn toggle_require_empty(&mut self) -> (r: bool)
        ensures
            r == (has_row(old(self)@) && row_of(old(self)@).can_be_empty),
            final(self)@ == if r { with_row(old(self)@, toggled_empty(row_of(old(self)@))) } else { old(self)@ },
    {
        proof { use_type_invariant(&*self); }
        if !self.row_exists() {
            return false;
        }
        let mut f = self.selected_copy();
        if !f.spec.can_be_empty {
            return false;
        }
        f.empty_required = !f.empty_required;
        if f.empty_required {
            f.value.clear();
            f.label_values = Vec::new();
            f.label_cursor = 0;
            assert(texts(f.label_values@) == Seq::<Seq<char>>::empty());
        }
        self.put_row(f);
        true
    }

    /// Switches negation on the row under the cursor, answering whether
    /// there was one.
    pub fn toggle_negate_field(&mut self) -> (r: bool)
        ensures
            r == has_row(old(self)@),
            final(self)@ == on_row(old(self)@, |f: FieldView| FieldView { negated: !f.negated, ..f }),
    {
        proof { use_type_invariant(&*self); }
        if !self.row_exists() {
            return false;
        }
        let mut f = self.selected_copy();
        f.negated = !f.negated;
        self.put_row(f);
        true
    }

    /// Switches negation on the active set, answering whether there was one.
    pub fn toggle_negate_set(&mut self) -> (r: bool)
        ensures
            r == (0 <= old(self)@.active < old(self)@.sets.len()),
            final(self)@ == if r {
                PanelView {
                    sets: old(self)@.sets.update(old(self)@.active, SetView {
                        negated: !old(self)@.sets[old(self)@.active].negated,
                        ..old(self)@.sets[old(self)@.active]
                    }),
                    ..old(self)@
                }
            } else {
                old(self)@
            },
    {
        proof { use_type_invariant(&*self); }
        if self.active >= self.sets.len() {
            return false;
        }
        let ghost p = self@;
        let a = self.active;
        let mut sets: Vec<TaskFilterSet> = Vec::new();
        std::mem::swap(&mut sets, &mut self.sets);
        let ghost before = sets@;
        let mut set = sets.remove(a);
        set.negated = !set.negated;
        sets.insert(a, set);
        assert(sets@ == before.update(a as int, set));
        self.sets = sets;
        assert(sets_view(self.sets@) =~= p.sets.update(a as int, SetView { negated: !p.sets[a as int].negated, ..p.sets[a as int] }));
        true
    }

    /// Whether the set the panel shows is negated.
    pub fn active_set_negated(&self) -> (r: bool)
        ensures
            r == (0 <= self@.active < self@.sets.len() && self@.sets[self@.active].negated),
    {
        self.active < self.sets.len() && self.sets[self.active].negated
    }

    /// How many sets there are.
    pub fn set_count(&self) -> (r: usize)
        ensures
            r == self@.sets.len(),
    {
        self.sets.len()
    }

    /// Which set the keys act on.
    pub fn active_set_index(&self) -> (r: usize)
        ensures
            r == self@.active,
    {
        self.active
    }

    /// The sets, for filtering.
    pub fn sets(&self) -> (r: &[TaskFilterSet])
        ensures
            sets_view(r@) == self@.sets,
    {
        self.sets.as_slice()
    }

    /// Moves the label cursor of a labels row one value left.
    pub fn move_label_cursor_left(&mut self)
        ensures
            final(self)@ == move_label_cursor_left_of(old(self)@),
    {
        proof { use_type_invariant(&*self); }
        if self.row_exists() {
            let mut f = self.selected_copy();
            if f.spec.kind == TaskFieldFilterKind::Labels && f.label_values.len() > 0 {
                f.label_cursor = if f.label_cursor > 0 { f.label_cursor - 1 } else { 0 };
            }
            self.put_row(f);
        }
    }

    /// Moves the label cursor of a labels row one value right, stopping at
    /// the last.
    pub fn move_label_cursor_right(&mut self)
        ensures
            final(self)@ == move_label_cursor_right_of(old(self)@),
    {
        proof { use_type_invariant(&*self); }
        if self.row_exists() {
            let mut f = self.selected_copy();
            let n = f.label_values.len();
            if f.spec.kind == TaskFieldFilterKind::Labels && n > 0 {
                f.label_cursor = if f.label_cursor < n - 1 { f.label_cursor + 1 } else { n - 1 };
            }
            self.put_row(f);
        }
    }

    /// Steps the value under the label cursor through the row's options,
    /// wrapping; an empty labels row first takes the first option.
    pub fn cycle_selected_label(&mut self, delta: i32)
        requires
            has_row(old(self)@) ==> row_of(old(self)@).label_options.len() <= i32::MAX,
        ensures
            final(self)@ == cycle_selected_label_of(old(self)@, delta),
    {
        proof { use_type_invariant(&*self); }
        if !self.row_exists() {
            return;
        }
        let ghost p = self@;
        let mut f = self.selected_copy();
        let n = f.label_options.len();
        if f.spec.kind != TaskFieldFilterKind::Labels || n == 0 {
            proof { lemma_same_row(p); }
            return;
        }
        let ghost f0 = f@;
        f.empty_required = false;
        if f.label_values.len() == 0 {
            f.label_values.push(f.label_options[0].clone());
            f.label_cursor = 0;
            assert(texts(f.label_values@) =~= seq![f0.label_options[0]]);
        }
        let len = f.label_values.len();
        let at = if f.label_cursor < len - 1 { f.label_cursor } else { len - 1 };
        let current = f.label_values[at].clone();
        let index: usize = match find_alike(&f.label_options, &current) {
            Some(i) => i,
            None => 0,
        };
        let nu = n as u64;
        let du: u64 = if delta >= 0 {
            (delta as u64) % nu
        } else {
            let back = ((0i64 - delta as i64) as u64) % nu;
            (nu - back) % nu
        };
        let next = ((index as u64) + du) % nu;
        proof { lemma_wrap(index as int, delta as int, n as int, du as int, next as int); }
        let ghost lv_before = f.label_values@;
        let value = f.label_options[next as usize].clone();
        f.label_values.set(at, value);
        assert(texts(f.label_values@) =~= texts(lv_before).update(at as int, f0.label_options[next as int]));
        let text = join_labels(&f.label_values);
        f.value.set_text_at_end(text.as_str());
        self.put_row(f);
    }

    /// Adds the first option after the label cursor and moves onto it.
    pub fn add_label(&mut self)
        ensures
            final(self)@ == add_label_of(old(self)@),
    {
        proof { use_type_invariant(&*self); }
        if !self.row_exists() {
            return;
        }
        let ghost p = self@;
        let mut f = self.selected_copy();
        if f.spec.kind != TaskFieldFilterKind::Labels || f.label_options.len() == 0 {
            proof { lemma_same_row(p); }
            return;
        }
        let ghost f0 = f@;
        f.empty_required = false;
        let value = f.label_options[0].clone();
        let len = f.label_values.len();
        let at = if f.label_cursor < len { f.label_cursor + 1 } else { len };
        let ghost lv_before = f.label_values@;
        f.label_values.insert(at, value);
        assert(texts(f.label_values@) =~= texts(lv_before).insert(at as int, f0.label_options[0]));
        f.label_cursor = at;
        let text = join_labels(&f.label_values);
        f.value.set_text_at_end(text.as_str());
        self.put_row(f);
    }

    /// Deletes the value under the label cursor.
    pub fn delete_selected_label(&mut self)
        ensures
            final(self)@ == delete_selected_label_of(old(self)@),
    {
        proof { use_type_invariant(&*self); }
        if !self.row_exists() {
            return;
        }
        let ghost p = self@;
        let mut f = self.selected_copy();
        let len = f.label_values.len();
        if f.spec.kind != TaskFieldFilterKind::Labels || len == 0 {
            proof { lemma_same_row(p); }
            return;
        }
        let at = if f.label_cursor < len - 1 { f.label_cursor } else { len - 1 };
        let ghost lv_before = f.label_values@;
        let _ = f.label_values.remove(at);
        assert(texts(f.label_values@) =~= texts(lv_before).remove(at as int));
        let n = f.label_values.len();
        if f.label_cursor >= n && n > 0 {
            f.label_cursor = n - 1;
        }
        if n == 0 {
            f.label_cursor = 0;
            f.value.clear();
        } else {
            let text = join_labels(&f.label_values);
            f.value.set_text_at_end(text.as_str());
        }
        self.put_row(f);
    }

    /// Whether the row under the cursor picks its values from a directory.
    pub fn selected_completes(&self) -> (r: bool)
        ensures
            r == completes_of(self@),
    {
        match self.selected_field() {
            Some(f) => f.spec.completes && f.string_mode == TaskFieldStringMode::List,
            None => false,
        }
    }

    /// Whether the completion editor is open.
    pub fn autocomplete_open(&self) -> (r: bool)
        ensures
            r == self@.autocomplete is Some,
    {
        self.autocomplete.is_some()
    }

    /// Opens the completion editor on a `list` row over `candidates`: the
    /// names the row holds come back as the candidates they name, and names
    /// that name none are dropped.
    pub fn open_autocomplete(&mut self, candidates: Vec<Candidate>)
        ensures
            !completes_of(old(self)@) ==> final(self)@ == old(self)@,
            completes_of(old(self)@) ==> final(self)@ == synced_ac(PanelView {
                autocomplete: Some(AutocompleteModel {
                    items: resolved_names(label_values_of(row_of(old(self)@).value.0), candidates.deep_view()),
                    buffer: (Seq::<char>::empty(), 0int),
                    item_caret: resolved_names(label_values_of(row_of(old(self)@).value.0), candidates.deep_view()).len() as int,
                    candidates: candidates.deep_view(),
                    cycle: None,
                    max_items: usize::MAX as int,
                }),
                ..old(self)@
            }),
    {
        proof { use_type_invariant(&*self); }
        if !self.selected_completes() {
            return;
        }
        let text = self.sets[self.active].fields[self.selected].value.text();
        let names = parse_label_values(text.as_str());
        let items = resolve_names(&names, &candidates);
        let a = AutocompleteState::new(items, candidates, usize::MAX);
        self.autocomplete = Some(a);
        self.sync_autocomplete_query();
    }

    /// Closes the completion editor and writes what it resolved into the
    /// row under the cursor, joined as a labels row joins its values,
    /// answering with what it could not resolve; on a refusal the items
    /// picked before stay.
    pub fn commit_autocomplete(&mut self) -> (r: Option<Unresolved>)
        ensures
            final(self)@ == commit_autocomplete_of(old(self)@),
            match old(self)@.autocomplete {
                None => r is None,
                Some(m) => match resolution_of(m) {
                    Ok(_) => r is None,
                    Err(ambiguous) => r matches Some(u) && refusal_is(u, ambiguous, trim(m.buffer.0)),
                },
            },
    {
        proof { use_type_invariant(&*self); }
        let a = match self.take_autocomplete() {
            Some(a) => a,
            None => return None,
        };
        let held = crate::autocomplete::clone_candidates(a.items());
        let (items, refusal) = match a.commit() {
            Ok(items) => (items, None),
            Err(u) => (held, Some(u)),
        };
        if self.row_exists() {
            let mut f = self.selected_copy();
            let text = join_displays_bar(&items);
            f.value.set_text_at_end(text.as_str());
            self.put_row(f);
        }
        refusal
    }

    /// Opens the date picker on a date row, answering whether it opened; the
    /// row stops asking for no value, since a date is about to be picked.
    pub fn open_calendar(&mut self, today: CivilDate) -> (r: bool)
        ensures
            r == (has_row(old(self)@) && row_of(old(self)@).kind == TaskFieldFilterKind::Date),
            !r ==> final(self)@ == old(self)@,
            r ==> final(self)@ == (PanelView {
                calendar: Some(open_of(row_of(old(self)@).label, row_of(old(self)@).value.0, today@, true)),
                editing: true,
                ..with_row(old(self)@, FieldView { empty_required: false, ..row_of(old(self)@) })
            }),
    {
        proof { use_type_invariant(&*self); }
        if !self.row_exists() {
            return false;
        }
        let mut f = self.selected_copy();
        if f.spec.kind != TaskFieldFilterKind::Date {
            return false;
        }
        let query = f.value.text();
        let c = CalendarState::open(f.spec.label.as_str(), query.as_str(), today);
        f.empty_required = false;
        self.put_row(f);
        proof { use_type_invariant(&*self); }
        self.calendar = Some(c);
        self.editing = true;
        true
    }

    /// Copies the picker's text into the row under the cursor.
    pub fn sync_calendar_query(&mut self)
        ensures
            final(self)@ == synced_calendar(old(self)@),
    {
        proof { use_type_invariant(&*self); }
        let query = match &self.calendar {
            Some(c) => c.query(),
            None => return,
        };
        if self.row_exists() {
            let mut f = self.selected_copy();
            f.value.set_text(query.as_str());
            self.put_row(f);
        }
    }

    /// Whether the date picker is open.
    pub fn calendar_open(&self) -> (r: bool)
        ensures
            r == self@.calendar is Some,
    {
        self.calendar.is_some()
    }

    /// Closes the date picker; the row keeps the text as edited.
    pub fn close_calendar(&mut self)
        ensures
            final(self)@ == (PanelView { calendar: None, ..old(self)@ }),
    {
        proof { use_type_invariant(&*self); }
        self.calendar = None;
    }
}


/// A set started afresh: every row cleared and back in the match mode it
/// was built with.
pub open spec fn reset_row(f: FieldView) -> FieldView {
    FieldView { string_mode: f.default_string_mode, ..cleared_row(f) }
}

/// The one set a reset leaves: the first set's rows started afresh.
pub open spec fn reset_set(p: PanelView) -> SetView {
    SetView {
        fields: if p.sets.len() > 0 { p.sets[0].fields.map_values(|f: FieldView| reset_row(f)) } else { Seq::empty() },
        negated: false,
        unresolved: Seq::empty(),
    }
}

/// How many saved entries the numbered window holds.
pub open spec fn window_of(p: PanelView) -> int {
    match p.sidebar_rows {
        None => MAX_SIDEBAR_ROWS as int,
        Some(n) => if n < 1 { 1 } else if n > MAX_SIDEBAR_ROWS { MAX_SIDEBAR_ROWS as int } else { n },
    }
}

/// Whether an unnamed panel holds work that exists nowhere else: a set that
/// is negated, has parked values, or has a row that filters.
pub open spec fn unsaved(p: PanelView) -> bool {
    p.loaded is None && exists|i: int| 0 <= i < p.sets.len() && {
        let s = #[trigger] p.sets[i];
        s.negated || s.unresolved.len() > 0 || count_active(s.fields) > 0
    }
}


impl TaskFilterEditorState {
    /// The panel before anything has loaded.
    pub open spec fn new_view() -> PanelView {
        PanelView {
            visible: false,
            editing: false,
            selected: 0,
            sets: Seq::empty(),
            active: 0,
            calendar: None,
            autocomplete: None,
            loaded: None,
            dirty: false,
            sidebar_visible: false,
            sidebar_page_start: 0,
            sidebar_rows: None,
            prompt: None,
            notice: None,
        }
    }

    /// A panel with no sets yet, as before anything has loaded.
    pub fn new() -> (r: Self)
        ensures
            r@ == Self::new_view(),
            r@ == (PanelView {
                visible: false,
                editing: false,
                selected: 0,
                sets: Seq::empty(),
                active: 0,
                calendar: None,
                autocomplete: None,
                loaded: None,
                dirty: false,
                sidebar_visible: false,
                sidebar_page_start: 0,
                sidebar_rows: None,
                prompt: None,
                notice: None,
            }),
    {
        let r = TaskFilterEditorState {
            visible: false,
            editing: false,
            selected: 0,
            sets: Vec::new(),
            active: 0,
            calendar: None,
            autocomplete: None,
            loaded: None,
            dirty: false,
            sidebar_visible: false,
            sidebar_page_start: 0,
            sidebar_rows: None,
            prompt: None,
            notice: None,
        };
        assert(sets_view(r.sets@) =~= Seq::<SetView>::empty());
        r
    }

    /// The active set is one of the sets, whenever there are any.
    pub fn valid(&self)
        ensures
            self@.sets.len() == 0 || 0 <= self@.active < self@.sets.len(),
    {
        proof { use_type_invariant(self); }
    }

    /// Adds a set after the active one, holding the active set's rows
    /// cleared, and moves to it; the edit ends.
    pub fn add_set(&mut self)
        requires
            old(self)@.sets.len() > 0,
        ensures
            final(self)@ == add_set_of(old(self)@),
    {
        proof { use_type_invariant(&*self); }
        let ghost p = self@;
        let fresh = self.sets[self.active].cleared();
        let mut sets: Vec<TaskFilterSet> = Vec::new();
        std::mem::swap(&mut sets, &mut self.sets);
        let ghost before = sets@;
        sets.insert(self.active + 1, fresh);
        assert(sets_view(sets@) =~= p.sets.insert(p.active + 1, fresh@));
        self.sets = sets;
        self.active = self.active + 1;
        self.stop_editing();
    }

    /// Removes the active set, unless it is the only one; the edit ends.
    pub fn remove_set(&mut self)
        ensures
            final(self)@ == remove_set_of(old(self)@),
    {
        proof { use_type_invariant(&*self); }
        if self.sets.len() <= 1 {
            return;
        }
        let ghost p = self@;
        let mut sets: Vec<TaskFilterSet> = Vec::new();
        std::mem::swap(&mut sets, &mut self.sets);
        let _ = sets.remove(self.active);
        assert(sets_view(sets@) =~= p.sets.remove(p.active));
        let last = sets.len() - 1;
        self.active = if self.active < last { self.active } else { last };
        self.sets = sets;
        self.stop_editing();
    }

    /// Starts the panel again: one set of the first set's rows, cleared and
    /// back in the modes they were built with, the cursor on the first row,
    /// and the edit ended.
    pub fn reset(&mut self)
        ensures
            final(self)@ == stopped(PanelView { sets: seq![reset_set(old(self)@)], active: 0, selected: 0, ..old(self)@ }),
    {
        proof { use_type_invariant(&*self); }
        let ghost p = self@;
        let mut fields: Vec<TaskFilterFieldState> = Vec::new();
        if self.sets.len() > 0 {
            let src = &self.sets[0].fields;
            let mut i: usize = 0;
            while i < src.len()
                invariant
                    i <= src.len(),
                    fields@.len() == i,
                    forall|k: int| 0 <= k < i ==> (#[trigger] fields@[k])@ == reset_row(src@[k]@),
                decreases src.len() - i,
            {
                let mut f = src[i].clone();
                f.clear_value();
                f.string_mode = f.default_string_mode;
                fields.push(f);
                i += 1;
            }
            assert(fields_view(fields@) =~= p.sets[0].fields.map_values(|f: FieldView| reset_row(f)));
        } else {
            assert(fields_view(fields@) =~= Seq::<FieldView>::empty());
        }
        let fresh = TaskFilterSet { fields, negated: false, unresolved: Vec::new() };
        assert(crate::filter::saved_view(fresh.unresolved@) =~= Seq::<crate::filter::SavedView>::empty());
        let mut sets: Vec<TaskFilterSet> = Vec::new();
        sets.push(fresh);
        assert(sets_view(sets@) =~= seq![reset_set(p)]);
        self.active = 0;
        self.sets = sets;
        self.selected = 0;
        self.stop_editing();
    }

    /// Moves to another set by `delta`, wrapping; the edit ends and the
    /// caret goes to the end of the row under the cursor.
    pub fn select_set(&mut self, delta: i32)
        requires
            old(self)@.sets.len() <= i32::MAX,
        ensures
            final(self)@ == select_set_of(old(self)@, delta),
    {
        proof { use_type_invariant(&*self); }
        let n = self.sets.len();
        if n <= 1 {
            return;
        }
        let nu = n as u64;
        let du: u64 = if delta >= 0 {
            (delta as u64) % nu
        } else {
            let back = ((0i64 - delta as i64) as u64) % nu;
            (nu - back) % nu
        };
        let next = ((self.active as u64) + du) % nu;
        proof { lemma_wrap(self.active as int, delta as int, n as int, du as int, next as int); }
        self.active = next as usize;
        self.stop_editing();
        self.reset_query_caret();
    }

    /// How many saved entries the numbered window holds: as many as the
    /// sidebar has room for, from one up to the most it numbers.
    pub fn sidebar_window(&self) -> (r: usize)
        ensures
            r == window_of(self@),
    {
        match self.sidebar_rows {
            None => MAX_SIDEBAR_ROWS,
            Some(n) => if n < 1 { 1 } else if n > MAX_SIDEBAR_ROWS { MAX_SIDEBAR_ROWS } else { n },
        }
    }

    /// Pages the numbered window by `delta` windows, held between the first
    /// page and the last; with everything in one window, back to the first.
    pub fn page_sidebar(&mut self, delta: i32, total: usize)
        requires
            total <= i32::MAX,
            old(self)@.sidebar_page_start <= i32::MAX,
            i32::MIN <= old(self)@.sidebar_page_start + delta * window_of(old(self)@) <= i32::MAX,
        ensures
            final(self)@ == page_sidebar_of(old(self)@, delta, total),
    {
        proof { use_type_invariant(&*self); }
        let w = self.sidebar_window();
        if total <= w {
            self.sidebar_page_start = 0;
            return;
        }
        assert((total as int - 1) / (w as int) * (w as int) <= total as int - 1) by (nonlinear_arith)
            requires w >= 1, total >= 1;
        let last = (total - 1) / w * w;
        assert(last as int == (total as int - 1) / (w as int) * (w as int));
        assert((total as int - 1) / (w as int) * (w as int) <= total as int - 1) by (nonlinear_arith)
            requires w >= 1, total >= 1;
        let start: i64 = self.sidebar_page_start as i64 + (delta as i64) * (w as i64);
        let clamped: i64 = if start < 0 { 0 } else if start > last as i64 { last as i64 } else { start };
        self.sidebar_page_start = clamped as usize;
    }

    /// The first saved entry in the numbered window.
    pub fn sidebar_page_start(&self) -> (r: usize)
        ensures
            r == self@.sidebar_page_start,
    {
        self.sidebar_page_start
    }

    /// Tells the panel how many saved entries the sidebar has room for.
    pub fn set_sidebar_rows(&mut self, rows: usize)
        ensures
            final(self)@ == set_sidebar_rows_of(old(self)@, rows),
    {
        proof { use_type_invariant(&*self); }
        self.sidebar_rows = Some(rows);
    }

    /// Whether the sidebar of named sets is shown.
    pub fn sidebar_visible(&self) -> (r: bool)
        ensures
            r == self@.sidebar_visible,
    {
        self.sidebar_visible
    }

    /// Shows or hides the sidebar; hiding it closes its prompt and notice.
    pub fn toggle_sidebar(&mut self)
        ensures
            final(self)@ == toggle_sidebar_of(old(self)@),
    {
        proof { use_type_invariant(&*self); }
        self.sidebar_visible = !self.sidebar_visible;
        if !self.sidebar_visible {
            self.prompt = None;
            self.notice = None;
        }
    }

    /// The named entry the panel is bound to, if any.
    pub fn loaded(&self) -> (r: Option<&str>)
        ensures
            match r {
                Some(n) => self@.loaded == Some(n@),
                None => self@.loaded is None,
            },
    {
        match &self.loaded {
            Some(n) => Some(n.as_str()),
            None => None,
        }
    }

    /// Binds the panel to a name, or unbinds it, with nothing left to write.
    pub fn bind(&mut self, name: Option<String>)
        ensures
            final(self)@ == (PanelView { loaded: opt_text(name), dirty: false, ..old(self)@ }),
    {
        proof { use_type_invariant(&*self); }
        self.loaded = name;
        self.dirty = false;
    }

    /// Records a change: a bound panel now has something to write.
    pub fn note_change(&mut self)
        ensures
            final(self)@ == marked(old(self)@),
    {
        proof { use_type_invariant(&*self); }
        if self.loaded.is_some() {
            self.dirty = true;
        }
    }

    /// Whether the bound panel has changed since it was last written.
    pub fn dirty(&self) -> (r: bool)
        ensures
            r == self@.dirty,
    {
        self.dirty
    }

    /// Records whether the panel has changes to write.
    pub fn set_dirty(&mut self, dirty: bool)
        ensures
            final(self)@ == (PanelView { dirty, ..old(self)@ }),
    {
        proof { use_type_invariant(&*self); }
        self.dirty = dirty;
    }

    /// The sidebar's report, if any.
    pub fn notice(&self) -> (r: Option<&str>)
        ensures
            match r {
                Some(n) => self@.notice == Some(n@),
                None => self@.notice is None,
            },
    {
        match &self.notice {
            Some(n) => Some(n.as_str()),
            None => None,
        }
    }

    /// Puts up a report, or takes it down; putting one up shows the sidebar.
    pub fn set_notice(&mut self, notice: Option<String>)
        ensures
            final(self)@ == (PanelView {
                notice: opt_text(notice),
                sidebar_visible: old(self)@.sidebar_visible || notice is Some,
                ..old(self)@
            }),
    {
        proof { use_type_invariant(&*self); }
        if notice.is_some() {
            self.sidebar_visible = true;
        }
        self.notice = notice;
    }

    /// The open prompt, if any.
    pub fn prompt(&self) -> (r: Option<&SidebarPrompt>)
        ensures
            match r {
                Some(q) => self@.prompt == Some(q@),
                None => self@.prompt is None,
            },
    {
        match &self.prompt {
            Some(q) => Some(q),
            None => None,
        }
    }

    /// Closes the prompt.
    pub fn cancel_prompt(&mut self)
        ensures
            final(self)@ == (PanelView { prompt: None, ..old(self)@ }),
    {
        proof { use_type_invariant(&*self); }
        self.prompt = None;
    }

    /// Opens the save prompt holding the bound name, caret at its end, and
    /// the sidebar it rides on.
    pub fn prompt_save(&mut self)
        ensures
            final(self)@ == prompt_save_of(old(self)@),
    {
        proof { use_type_invariant(&*self); }
        let text = match &self.loaded {
            Some(n) => n.clone(),
            None => String::new(),
        };
        let caret = chars_of(text.as_str()).len();
        self.sidebar_visible = true;
        self.notice = None;
        self.prompt = Some(SidebarPrompt::Save { text, caret });
    }

    /// Opens the delete confirmation for the bound name, or reports that
    /// nothing is bound and answers `false`.
    pub fn prompt_delete(&mut self) -> (r: bool)
        ensures
            r == old(self)@.loaded is Some,
            final(self)@ == match old(self)@.loaded {
                Some(n) => PanelView {
                    sidebar_visible: true,
                    notice: None,
                    prompt: Some(PromptView::ConfirmDelete { name: n }),
                    ..old(self)@
                },
                None => PanelView { notice: Some("no set is loaded"@), ..old(self)@ },
            },
    {
        proof { use_type_invariant(&*self); }
        let name = match &self.loaded {
            Some(n) => n.clone(),
            None => {
                self.notice = Some("no set is loaded".to_string());
                return false;
            },
        };
        self.sidebar_visible = true;
        self.notice = None;
        self.prompt = Some(SidebarPrompt::ConfirmDelete { name });
        true
    }

    /// Opens the confirmation for a load that would throw away unsaved work.
    pub fn prompt_confirm_load(&mut self, name: &str)
        ensures
            final(self)@ == prompt_confirm_load_of(old(self)@, name@),
    {
        proof { use_type_invariant(&*self); }
        self.sidebar_visible = true;
        self.notice = None;
        self.prompt = Some(SidebarPrompt::ConfirmLoad { name: name.to_string() });
    }

    /// Whether replacing the panel would lose work: it is unnamed and some
    /// set is negated, has parked values, or has a row that filters.
    pub fn is_unsaved(&self) -> (r: bool)
        ensures
            r == unsaved(self@),
    {
        if self.loaded.is_some() {
            return false;
        }
        let ghost p = self@;
        let mut i: usize = 0;
        while i < self.sets.len()
            invariant
                i <= self.sets.len(),
                p == self@,
                p.loaded is None,
                forall|k: int| 0 <= k < i ==> !({
                    let s = #[trigger] p.sets[k];
                    s.negated || s.unresolved.len() > 0 || count_active(s.fields) > 0
                }),
            decreases self.sets.len() - i,
        {
            let set = &self.sets[i];
            assert(p.sets[i as int] == set@);
            if set.negated || set.unresolved.len() > 0 || set.active_filter_count() > 0 {
                return true;
            }
            i += 1;
        }
        false
    }

    /// Types a character at the save prompt's caret; any report goes.
    pub fn prompt_push_char(&mut self, ch: char)
        ensures
            final(self)@ == prompt_push_char_of(old(self)@, ch),
    {
        proof { use_type_invariant(&*self); }
        self.notice = None;
        let (text, caret) = match &self.prompt {
            Some(SidebarPrompt::Save { text, caret }) => (text.clone(), *caret),
            _ => return,
        };
        let mut chars = chars_of(text.as_str());
        let ghost before = chars@;
        chars.insert(caret, ch);
        assert(chars@ =~= before.take(caret as int).push(ch) + before.skip(caret as int));
        let n = chars.len();
        assert(caret + 1 <= n);
        let t = string_from_chars(&chars);
        self.prompt = Some(SidebarPrompt::Save { text: t, caret: caret + 1 });
    }

    /// Deletes the character before the save prompt's caret; any report
    /// goes.
    pub fn prompt_pop_char(&mut self)
        ensures
            final(self)@ == prompt_pop_char_of(old(self)@),
    {
        proof { use_type_invariant(&*self); }
        self.notice = None;
        let (text, caret) = match &self.prompt {
            Some(SidebarPrompt::Save { text, caret }) => (text.clone(), *caret),
            _ => return,
        };
        if caret == 0 {
            return;
        }
        let mut chars = chars_of(text.as_str());
        let ghost before = chars@;
        let _ = chars.remove(caret - 1);
        assert(chars@ =~= before.take(caret - 1) + before.skip(caret as int));
        let t = string_from_chars(&chars);
        self.prompt = Some(SidebarPrompt::Save { text: t, caret: caret - 1 });
    }

    /// Moves the save prompt's caret, held to its text.
    pub fn prompt_move_caret(&mut self, delta: i64)
        ensures
            final(self)@ == prompt_move_caret_of(old(self)@, delta),
    {
        proof { use_type_invariant(&*self); }
        let (text, caret) = match &self.prompt {
            Some(SidebarPrompt::Save { text, caret }) => (text.clone(), *caret),
            _ => return,
        };
        let len = chars_of(text.as_str()).len();
        let next: usize = if delta < 0 {
            if (caret as i128) + (delta as i128) < 0 { 0 } else { ((caret as i128) + (delta as i128)) as usize }
        } else {
            if (caret as i128) + (delta as i128) > len as i128 { len } else { ((caret as i128) + (delta as i128)) as usize }
        };
        self.prompt = Some(SidebarPrompt::Save { text, caret: next });
    }
}


/// What a row shows for a require-empty.
pub const EMPTY_REQUIRED_TEXT: &'static str = "(none)";

/// A saved set as plain values: whether it is negated, and its values.
pub open spec fn saved_set_view(s: SavedFilterSet) -> (bool, Seq<SavedView>) {
    (s.negated, saved_view(s.fields@))
}

/// The set new sets are made from: the first set, or an empty one.
pub open spec fn first_or_empty(p: PanelView) -> SetView {
    if p.sets.len() > 0 { p.sets[0] } else { SetView { fields: Seq::empty(), negated: false, unresolved: Seq::empty() } }
}

/// A set made from a template by writing a saved set over it.
pub open spec fn applied(t: SetView, saved: (bool, Seq<SavedView>)) -> SetView {
    offer_all(
        SetView { fields: t.fields.map_values(|f: FieldView| cleared_row(f)), negated: saved.0, unresolved: Seq::empty() },
        saved.1,
    )
}

/// The sets after loading saved ones: each written over the first set
/// cleared, or that cleared set alone when there are none.
pub open spec fn loaded_sets(p: PanelView, saved: Seq<(bool, Seq<SavedView>)>) -> Seq<SetView> {
    let t = cleared_set(first_or_empty(p));
    if saved.len() == 0 { seq![t] } else { saved.map_values(|v: (bool, Seq<SavedView>)| applied(t, v)) }
}

/// Saved sets as plain values.
pub open spec fn saved_sets_view(saved: Seq<SavedFilterSet>) -> Seq<(bool, Seq<SavedView>)> {
    saved.map_values(|v: SavedFilterSet| saved_set_view(v))
}

/// Every set replaced with saved ones, each written over the first set
/// cleared; the active set and the cursor held to what arrived, and the
/// edit ended.
pub open spec fn apply_saved_of(p: PanelView, saved: Seq<(bool, Seq<SavedView>)>) -> PanelView {
    stopped(clamped(PanelView { sets: loaded_sets(p, saved), ..p }, p.active, p.selected))
}

/// The panel with its cursor and active set held to what it now holds.
pub open spec fn clamped(p: PanelView, active: int, selected: int) -> PanelView {
    let a = if active < p.sets.len() - 1 { active } else { p.sets.len() - 1 };
    let n = p.sets[a].fields.len();
    let top = if n == 0 { 0 } else { n - 1 };
    PanelView { active: a, selected: if selected < top { selected } else { top }, ..p }
}

/// The sets after a rebuild: each older set carried onto a copy of the
/// freshly built first set, or that set alone when there were none.
pub open spec fn rebuilt_sets(template: SetView, prev: Seq<SetView>) -> Seq<SetView> {
    if prev.len() == 0 { seq![template] } else { prev.map_values(|o: SetView| restored_set(template, o)) }
}

/// A freshly built panel after carrying over an older one: everything the
/// user set comes from the older panel, the sets are rebuilt onto the new
/// rows, and the pickers stay only while the edit does.
pub open spec fn restored_panel(p: PanelView, prev: PanelView) -> PanelView {
    let editing = prev.editing && prev.visible;
    clamped(
        PanelView {
            visible: prev.visible,
            editing,
            calendar: if editing { prev.calendar } else { None },
            autocomplete: if editing { prev.autocomplete } else { None },
            loaded: prev.loaded,
            dirty: prev.dirty,
            sidebar_visible: prev.sidebar_visible,
            sidebar_page_start: prev.sidebar_page_start,
            sidebar_rows: prev.sidebar_rows,
            prompt: prev.prompt,
            notice: prev.notice,
            sets: rebuilt_sets(first_or_empty(p), prev.sets),
            ..p
        },
        prev.active,
        prev.selected,
    )
}

/// The panel after a change, which a bound panel has to write out.
pub open spec fn marked(p: PanelView) -> PanelView {
    if p.loaded is Some { PanelView { dirty: true, ..p } } else { p }
}

/// Every set prepared for filtering.
pub open spec fn prepared_sets(sets: Seq<SetView>, today: (int, int, int), me: Option<Seq<char>>) -> Seq<PreparedSetView> {
    sets.map_values(|s: SetView| prepared_set(s, today, me))
}

/// What a row shows as its query: the require-empty text, a labels row's
/// values joined, or the text.
pub open spec fn shown_query(f: FieldView) -> Seq<char> {
    if f.empty_required {
        "(none)"@
    } else if f.kind == TaskFieldFilterKind::Labels {
        joined(f.label_values)
    } else {
        f.value.0
    }
}

/// A copy of a set.
fn copy_set(s: &TaskFilterSet) -> (r: TaskFilterSet)
    ensures
        r@ == s@,
{
    let mut fields: Vec<TaskFilterFieldState> = Vec::new();
    let mut i: usize = 0;
    while i < s.fields.len()
        invariant
            i <= s.fields.len(),
            fields@.len() == i,
            forall|k: int| 0 <= k < i ==> (#[trigger] fields@[k])@ == s.fields@[k]@,
        decreases s.fields.len() - i,
    {
        fields.push(s.fields[i].clone());
        i += 1;
    }
    let mut unresolved: Vec<crate::filter::SavedFilterField> = Vec::new();
    let mut j: usize = 0;
    while j < s.unresolved.len()
        invariant
            j <= s.unresolved.len(),
            unresolved@.len() == j,
            forall|k: int| 0 <= k < j ==> (#[trigger] unresolved@[k])@ == s.unresolved@[k]@,
        decreases s.unresolved.len() - j,
    {
        unresolved.push(s.unresolved[j].clone());
        j += 1;
    }
    let r = TaskFilterSet { fields, negated: s.negated, unresolved };
    assert(fields_view(r.fields@) =~= fields_view(s.fields@));
    assert(saved_view(r.unresolved@) =~= saved_view(s.unresolved@));
    r
}

/// An empty set with no rows.
fn empty_set() -> (r: TaskFilterSet)
    ensures
        r@ == (SetView { fields: Seq::empty(), negated: false, unresolved: Seq::empty() }),
{
    let r = TaskFilterSet { fields: Vec::new(), negated: false, unresolved: Vec::new() };
    assert(fields_view(r.fields@) =~= Seq::<FieldView>::empty());
    assert(saved_view(r.unresolved@) =~= Seq::<SavedView>::empty());
    r
}

impl TaskFilterEditorState {
    /// The first set, or an empty one.
    fn template(&self) -> (r: TaskFilterSet)
        ensures
            r@ == first_or_empty(self@),
    {
        if self.sets.len() > 0 { copy_set(&self.sets[0]) } else { empty_set() }
    }

    /// Holds the active set and the cursor to what the panel holds.
    fn clamp_to(&mut self, active: usize, selected: usize)
        requires
            old(self)@.sets.len() > 0,
        ensures
            final(self)@ == clamped(old(self)@, active as int, selected as int),
    {
        proof { use_type_invariant(&*self); }
        let last = self.sets.len() - 1;
        self.active = if active < last { active } else { last };
        let n = self.sets[self.active].fields.len();
        let top = if n == 0 { 0 } else { n - 1 };
        self.selected = if selected < top { selected } else { top };
    }

    /// Every set as it is saved.
    pub fn to_saved(&self) -> (r: Vec<SavedFilterSet>)
        ensures
            r@.len() == self@.sets.len(),
            forall|i: int| 0 <= i < r@.len() ==> (#[trigger] r@[i]).negated == self@.sets[i].negated
                && saved_view(r@[i].fields@) == saved_rows(self@.sets[i].fields) + self@.sets[i].unresolved,
    {
        let mut out: Vec<SavedFilterSet> = Vec::new();
        let mut i: usize = 0;
        while i < self.sets.len()
            invariant
                i <= self.sets.len(),
                out@.len() == i,
                forall|k: int| 0 <= k < i ==> (#[trigger] out@[k]).negated == self@.sets[k].negated
                    && saved_view(out@[k].fields@) == saved_rows(self@.sets[k].fields) + self@.sets[k].unresolved,
            decreases self.sets.len() - i,
        {
            let v = self.sets[i].to_saved();
            assert(self@.sets[i as int] == self.sets@[i as int]@);
            out.push(v);
            i += 1;
        }
        out
    }

    /// Replaces every set with saved ones, each written over the first set
    /// cleared; the active set and the cursor are held to what arrived, and
    /// the edit ends.
    pub fn apply_saved(&mut self, saved: &[SavedFilterSet])
        ensures
            final(self)@ == apply_saved_of(old(self)@, saved_sets_view(saved@)),
    {
        proof { use_type_invariant(&*self); }
        let ghost p = self@;
        let template = self.template().cleared();
        let ghost t = template@;
        let ghost sv = saved@.map_values(|v: SavedFilterSet| saved_set_view(v));
        let mut sets: Vec<TaskFilterSet> = Vec::new();
        let mut i: usize = 0;
        while i < saved.len()
            invariant
                i <= saved.len(),
                t == template@,
                sv == saved@.map_values(|v: SavedFilterSet| saved_set_view(v)),
                sets@.len() == i,
                forall|k: int| 0 <= k < i ==> (#[trigger] sets@[k])@ == applied(t, sv[k]),
            decreases saved.len() - i,
        {
            let mut fresh = copy_set(&template);
            fresh.apply_saved(&saved[i]);
            sets.push(fresh);
            i += 1;
        }
        if sets.len() == 0 {
            sets.push(template);
            assert(sets_view(sets@) =~= seq![t]);
        } else {
            assert(sets_view(sets@) =~= sv.map_values(|v: (bool, Seq<SavedView>)| applied(t, v)));
        }
        let active = self.active;
        let selected = self.selected;
        self.active = 0;
        self.sets = sets;
        self.clamp_to(active, selected);
        self.stop_editing();
    }

    /// Carries everything the user did in an older panel onto this freshly
    /// built one: the older sets are rebuilt onto this panel's rows, what
    /// the user set comes across, and the pickers stay while the edit does.
    pub fn restore_queries(&mut self, previous: TaskFilterEditorState)
        ensures
            final(self)@ == restored_panel(old(self)@, previous@),
    {
        proof { use_type_invariant(&*self); use_type_invariant(&previous); }
        let ghost p = self@;
        let ghost prev = previous@;
        let template = self.template();
        let ghost t = template@;
        let editing = previous.editing && previous.visible;
        let mut sets: Vec<TaskFilterSet> = Vec::new();
        let mut i: usize = 0;
        while i < previous.sets.len()
            invariant
                i <= previous.sets.len(),
                t == template@,
                prev == previous@,
                sets@.len() == i,
                forall|k: int| 0 <= k < i ==> (#[trigger] sets@[k])@ == restored_set(t, prev.sets[k]),
            decreases previous.sets.len() - i,
        {
            let mut set = copy_set(&template);
            set.restore_from(&previous.sets[i]);
            assert(previous.sets@[i as int]@ == prev.sets[i as int]);
            sets.push(set);
            i += 1;
        }
        if sets.len() == 0 {
            sets.push(template);
            assert(sets_view(sets@) =~= seq![t]);
        } else {
            assert(sets_view(sets@) =~= prev.sets.map_values(|o: SetView| restored_set(t, o)));
        }
        let TaskFilterEditorState {
            visible,
            editing: _,
            selected,
            sets: _,
            active,
            calendar,
            autocomplete,
            loaded,
            dirty,
            sidebar_visible,
            sidebar_page_start,
            sidebar_rows,
            prompt,
            notice,
        } = previous;
        self.visible = visible;
        self.editing = editing;
        self.calendar = if editing { calendar } else { None };
        self.autocomplete = if editing { autocomplete } else { None };
        self.loaded = loaded;
        self.dirty = dirty;
        self.sidebar_visible = sidebar_visible;
        self.sidebar_page_start = sidebar_page_start;
        self.sidebar_rows = sidebar_rows;
        self.prompt = prompt;
        self.notice = notice;
        self.active = 0;
        self.sets = sets;
        self.clamp_to(active, selected);
    }

    /// How many rows filter something in each set, in order.
    pub fn set_counts(&self) -> (r: Vec<usize>)
        ensures
            r@.len() == self@.sets.len(),
            forall|i: int| 0 <= i < r@.len() ==> r@[i] == count_active(#[trigger] self@.sets[i].fields),
    {
        let mut out: Vec<usize> = Vec::new();
        let mut i: usize = 0;
        while i < self.sets.len()
            invariant
                i <= self.sets.len(),
                out@.len() == i,
                forall|k: int| 0 <= k < i ==> out@[k] == count_active(#[trigger] self@.sets[k].fields),
            decreases self.sets.len() - i,
        {
            out.push(self.sets[i].active_filter_count());
            i += 1;
        }
        out
    }

    /// The shown rows as `(label, query)` pairs, the query as the panel
    /// shows it.
    pub fn rows_text(&self) -> (r: Vec<(String, String)>)
        ensures
            r@.len() == panel_rows(self@).len(),
            forall|i: int| 0 <= i < r@.len() ==> (#[trigger] r@[i]).0@ == panel_rows(self@)[i].label
                && r@[i].1@ == shown_query(panel_rows(self@)[i]),
    {
        let rows = self.fields();
        let mut out: Vec<(String, String)> = Vec::new();
        let mut i: usize = 0;
        while i < rows.len()
            invariant
                i <= rows.len(),
                fields_view(rows@) == panel_rows(self@),
                out@.len() == i,
                forall|k: int| 0 <= k < i ==> (#[trigger] out@[k]).0@ == panel_rows(self@)[k].label
                    && out@[k].1@ == shown_query(panel_rows(self@)[k]),
            decreases rows.len() - i,
        {
            let f = &rows[i];
            let query = if f.empty_required {
                proof { reveal_strlit("(none)"); }
                EMPTY_REQUIRED_TEXT.to_string()
            } else if f.spec.kind == TaskFieldFilterKind::Labels {
                join_labels(&f.label_values)
            } else {
                f.value.text()
            };
            out.push((f.spec.label.clone(), query));
            i += 1;
        }
        out
    }

    /// Prepares every set for filtering today, for whoever is logged in.
    pub fn prepare(&self, me: Option<&str>) -> (r: PreparedFilter)
        ensures
            r.wf(),
            exists|today: (int, int, int)| crate::date::valid_ymd(today) && r.view() == #[trigger] prepared_sets(self@.sets, today, who_of(me)),
            forall|i: int, k: int| 0 <= i < r.view().len() && 0 <= k < r.view()[i].fields.len()
                ==> 0 <= #[trigger] r.view()[i].fields[k].index < self@.sets[i].fields.len(),
    {
        let r = crate::filter::prepare(self.sets.as_slice(), me);
        proof {
            let today = choose|today: (int, int, int)| crate::date::valid_ymd(today) && r.view() == #[trigger] crate::filter::prepared_all(self.sets@, today, who_of(me));
            assert(r.view() =~= prepared_sets(self@.sets, today, who_of(me)));
            assert forall|i: int| 0 <= i < self.sets@.len() implies #[trigger] self@.sets[i].fields.len() == self.sets@[i].fields@.len() by {
                assert(self@.sets[i] == self.sets@[i]@);
            }
        }
        r
    }

    /// The due window the sets let the server narrow to today, as ISO
    /// dates.
    pub fn due_date_range_for_query(&self) -> (r: (Option<String>, Option<String>))
        ensures
            exists|today: (int, int, int)| valid_ymd(today)
                && iso_is(r.0, #[trigger] due_window(self@.sets, today).0)
                && iso_is(r.1, due_window(self@.sets, today).1),
    {
        let r = crate::filter_edit::due_date_range_for_query(self.sets.as_slice());
        proof {
            let today = choose|today: (int, int, int)| valid_ymd(today)
                && iso_is(r.0, #[trigger] due_window(sets_view(self.sets@), today).0)
                && iso_is(r.1, due_window(sets_view(self.sets@), today).1);
            assert(sets_view(self.sets@) == self@.sets);
            assert(valid_ymd(today) && iso_is(r.0, due_window(self@.sets, today).0) && iso_is(r.1, due_window(self@.sets, today).1));
        }
        r
    }
}


/// Adding a set can only widen what the panel shows: the new set is the
/// active one cleared, and it accepts every task.
pub proof fn lemma_adding_a_set_only_widens(
    p: PanelView,
    today: (int, int, int),
    me: Option<Seq<char>>,
    record: Seq<ReadingView>,
)
    requires
        0 <= p.active < p.sets.len(),
    ensures
        filter_accepts(
            prepared_sets(p.sets.insert(p.active + 1, cleared_set(p.sets[p.active])), today, me),
            record,
        ),
{
    let sets = p.sets.insert(p.active + 1, cleared_set(p.sets[p.active]));
    let prepared = prepared_sets(sets, today, me);
    lemma_a_cleared_set_accepts_everything(p.sets[p.active], today, me, record);
    assert(sets[p.active + 1] == cleared_set(p.sets[p.active]));
    assert(prepared[p.active + 1] == prepared_set(cleared_set(p.sets[p.active]), today, me));
    assert(set_accepts(prepared[p.active + 1], record));
}

/// Negating the row under the cursor twice leaves the panel as it was.
pub proof fn lemma_negating_a_row_twice(p: PanelView)
    ensures
        on_row(
            on_row(p, |f: FieldView| FieldView { negated: !f.negated, ..f }),
            |f: FieldView| FieldView { negated: !f.negated, ..f },
        ) == p,
{
    if has_row(p) {
        let q = on_row(p, |f: FieldView| FieldView { negated: !f.negated, ..f });
        let s = p.sets[p.active];
        assert(q.sets[p.active].fields.len() == s.fields.len());
        assert(row_of(q) == FieldView { negated: !row_of(p).negated, ..row_of(p) });
        assert(FieldView { negated: !row_of(q).negated, ..row_of(q) } == row_of(p));
        let r = with_row(q, row_of(p));
        assert(r.sets[p.active].fields =~= s.fields);
        assert(r.sets =~= p.sets);
    }
}


/// The row under the cursor showing the picker's text, the caret kept where
/// it still fits.
pub open spec fn synced_calendar(p: PanelView) -> PanelView {
    match p.calendar {
        Some(c) => on_row(p, |f: FieldView| FieldView {
            value: (c.query, if f.value.1 <= c.query.len() { f.value.1 } else { c.query.len() as int }),
            ..f
        }),
        None => p,
    }
}

impl TaskFilterEditorState {
    /// Takes one change in the date picker and copies its text into the row
    /// under the cursor, answering whether a picker was open.
    pub fn calendar_step(&mut self, step: CalendarStep) -> (r: bool)
        ensures
            r == old(self)@.calendar is Some,
            final(self)@ == match old(self)@.calendar {
                Some(c) => synced_calendar(PanelView { calendar: Some(step_of(c, step)), ..old(self)@ }),
                None => old(self)@,
            },
    {
        proof { use_type_invariant(&*self); }
        match self.take_calendar() {
            Some(mut c) => {
                c.step(step);
                proof { use_type_invariant(&*self); }
                self.calendar = Some(c);
                self.sync_calendar_query();
                true
            },
            None => false,
        }
    }
}


impl TaskFilterEditorState {
    /// Takes a completion step in the completion editor and copies its text
    /// into the row under the cursor, answering whether anything matched.
    pub fn complete(&mut self, delta: i32) -> (r: bool)
        ensures
            match old(self)@.autocomplete {
                Some(m) => (final(self)@, r) == (
                    synced_ac(PanelView { autocomplete: Some(crate::autocomplete::completed_of(m, delta as int).0), ..old(self)@ }),
                    crate::autocomplete::completed_of(m, delta as int).1,
                ),
                None => !r && final(self)@ == old(self)@,
            },
    {
        proof { use_type_invariant(&*self); }
        match self.take_autocomplete() {
            Some(mut a) => {
                let r = a.complete(delta);
                proof { use_type_invariant(&*self); }
                self.autocomplete = Some(a);
                self.sync_autocomplete_query();
                r
            },
            None => false,
        }
    }
}

} // verus!
