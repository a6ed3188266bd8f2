//! The cell edit a column cursor opens: a text buffer, a ring of fixed
//! options, or a date buffer with its picker, and the tasks the commit will
//! apply to.

use vstd::prelude::*;
use crate::calendar::{CalendarModel, CalendarState};
use crate::date::{CivilDate, today};
use crate::text_edit::{TextEdit, TextOp, text_after};

verus! {

/// What resolving an edit needs that the task view does not own.
#[derive(Clone, Debug, PartialEq, Eq)]
pub struct EditContext {
    /// Today, for the date keywords; `None` reads the clock.
    pub today: Option<CivilDate>,
    /// The logged-in user's id, which is what `me` resolves to.
    pub current_user_gid: Option<String>,
}

impl Default for EditContext {
    fn default() -> (r: EditContext)
        ensures
            r.today is None,
            r.current_user_gid is None,
    {
        EditContext { today: None, current_user_gid: None }
    }
}

impl EditContext {
    /// The pinned date when there is one, else the clock's.
    pub fn today(&self) -> (r: CivilDate)
        ensures
            self.today matches Some(d) ==> r == d,
    {
        match self.today {
            Some(d) => d,
            None => today(),
        }
    }
}

/// The editor a cell opened with.
#[derive(Debug)]
pub enum CellEditor {
    Text(TextEdit),
    /// One value out of a fixed set; `None` is no value.
    Options {
        options: Vec<String>,
        cursor: Option<usize>,
        /// Whether no value is a state the field can be in.
        allow_empty: bool,
    },
    /// The date picker, mirrored into the text: the buffer is the value.
    Date {
        text: TextEdit,
        calendar: CalendarState,
    },
}

/// An editor as plain values.
pub enum EditorView {
    Text((Seq<char>, int)),
    Options { options: Seq<Seq<char>>, cursor: Option<int>, allow_empty: bool },
    Date { text: (Seq<char>, int), calendar: CalendarModel },
}

/// The characters of each string.
pub open spec fn strings_view(v: Seq<String>) -> Seq<Seq<char>> {
    v.map_values(|s: String| s@)
}

impl View for CellEditor {
    type V = EditorView;

    open spec fn view(&self) -> EditorView {
        match self {
            CellEditor::Text(t) => EditorView::Text(t@),
            CellEditor::Options { options, cursor, allow_empty } => EditorView::Options {
                options: strings_view(options@),
                cursor: match cursor {
                    Some(i) => Some(*i as int),
                    None => None,
                },
                allow_empty: *allow_empty,
            },
            CellEditor::Date { text, calendar } => EditorView::Date { text: text@, calendar: calendar@ },
        }
    }
}

impl CellEditor {
    /// Whether this is a value picker, which steps rather than types.
    pub fn is_options(&self) -> (r: bool)
        ensures
            r == (self@ is Options),
    {
        match self {
            CellEditor::Options { .. } => true,
            _ => false,
        }
    }
}

/// The value an editor holds: the text, or the chosen option, or nothing.
pub open spec fn editor_value(e: EditorView) -> Seq<char> {
    match e {
        EditorView::Text(t) => t.0,
        EditorView::Date { text, .. } => text.0,
        EditorView::Options { options, cursor, .. } => match cursor {
            Some(i) => if 0 <= i < options.len() { options[i] } else { Seq::empty() },
            None => Seq::empty(),
        },
    }
}

/// Where the ring of options stands: the cursor, or one past the options
/// for no value.
pub open spec fn ring_position(options: Seq<Seq<char>>, cursor: Option<int>) -> int {
    match cursor {
        Some(i) => i,
        None => options.len() as int,
    }
}

/// Whether the option ring's arithmetic stays in range for a step.
pub open spec fn cycle_fits(e: EditorView, delta: int) -> bool {
    match e {
        EditorView::Options { options, cursor, .. } => {
            &&& options.len() < i32::MAX
            &&& ring_position(options, cursor) <= i32::MAX
            &&& i32::MIN <= ring_position(options, cursor) + delta <= i32::MAX
        },
        _ => true,
    }
}

/// The editor after stepping the option ring by `delta`; with no value
/// allowed the ring has one more stop, after the last option.
pub open spec fn cycled(e: EditorView, delta: int) -> EditorView {
    match e {
        EditorView::Options { options, cursor, allow_empty } => {
            if options.len() == 0 {
                e
            } else {
                let len = options.len() + if allow_empty { 1int } else { 0int };
                let next = (ring_position(options, cursor) + delta) % len;
                EditorView::Options {
                    options,
                    cursor: if next < options.len() { Some(next) } else { None },
                    allow_empty,
                }
            }
        },
        _ => e,
    }
}

/// The editor with its value cleared: no value on a ring that allows it,
/// an empty buffer otherwise.
pub open spec fn cleared(e: EditorView) -> EditorView {
    match e {
        EditorView::Options { options, cursor, allow_empty } => EditorView::Options {
            options,
            cursor: if allow_empty { None } else { cursor },
            allow_empty,
        },
        EditorView::Text(_) => EditorView::Text((Seq::empty(), 0)),
        EditorView::Date { calendar, .. } => EditorView::Date { text: (Seq::empty(), 0), calendar },
    }
}

/// The editor after a text edit; a value picker has no text to edit.
pub open spec fn text_edited(e: EditorView, op: TextOp) -> EditorView {
    match e {
        EditorView::Text(t) => EditorView::Text(text_after(t, op)),
        EditorView::Date { text, calendar } => EditorView::Date { text: text_after(text, op), calendar },
        EditorView::Options { .. } => e,
    }
}

/// The cell being edited, as plain values.
pub struct CellEditModel {
    pub column: int,
    pub targets: Seq<Seq<char>>,
    pub editor: EditorView,
    pub window_start: int,
}

/// The cell being edited, and the tasks the commit applies to.
#[derive(Debug)]
pub struct TaskCellEditState {
    column: usize,
    targets: Vec<String>,
    editor: CellEditor,
    window_start: usize,
}

impl TaskCellEditState {
    /// The edit as plain values.
    pub closed spec fn model(&self) -> CellEditModel {
        CellEditModel {
            column: self.column as int,
            targets: strings_view(self.targets@),
            editor: self.editor@,
            window_start: self.window_start as int,
        }
    }

    /// An edit of a column for the given tasks, its window at the start.
    pub fn new(column: usize, targets: Vec<String>, editor: CellEditor) -> (r: TaskCellEditState)
        ensures
            r.model() == (CellEditModel {
                column: column as int,
                targets: strings_view(targets@),
                editor: editor@,
                window_start: 0,
            }),
    {
        TaskCellEditState { column, targets, editor, window_start: 0 }
    }

    /// The column being edited.
    pub fn column(&self) -> (r: usize)
        ensures
            r == self.model().column,
    {
        self.column
    }

    /// The tasks the commit applies to.
    pub fn targets(&self) -> (r: &[String])
        ensures
            strings_view(r@) == self.model().targets,
    {
        self.targets.as_slice()
    }

    /// The editor.
    pub fn editor(&self) -> (r: &CellEditor)
        ensures
            r@ == self.model().editor,
    {
        &self.editor
    }

    /// Where the visible window into a long value starts.
    pub fn window_start(&self) -> (r: usize)
        ensures
            r == self.model().window_start,
    {
        self.window_start
    }

    /// Records where the renderer scrolled the value to.
    pub fn set_window_start(&mut self, start: usize)
        ensures
            final(self).model() == (CellEditModel { window_start: start as int, ..old(self).model() }),
    {
        self.window_start = start;
    }

    /// The text buffer this editor types into, if it has one.
    pub fn text(&self) -> (r: Option<&TextEdit>)
        ensures
            match self.model().editor {
                EditorView::Text(t) => r matches Some(b) && b@ == t,
                EditorView::Date { text, .. } => r matches Some(b) && b@ == text,
                EditorView::Options { .. } => r is None,
            },
    {
        match &self.editor {
            CellEditor::Text(text) => Some(text),
            CellEditor::Date { text, .. } => Some(text),
            CellEditor::Options { .. } => None,
        }
    }

    /// The date picker, if this is a date edit.
    pub fn calendar(&self) -> (r: Option<&CalendarState>)
        ensures
            match self.model().editor {
                EditorView::Date { calendar, .. } => r matches Some(c) && c@ == calendar,
                _ => r is None,
            },
    {
        match &self.editor {
            CellEditor::Date { calendar, .. } => Some(calendar),
            _ => None,
        }
    }

    /// Where the caret sits, or `None` for a value picker.
    pub fn caret(&self) -> (r: Option<usize>)
        ensures
            match self.model().editor {
                EditorView::Text(t) => r == Some(t.1 as usize),
                EditorView::Date { text, .. } => r == Some(text.1 as usize),
                EditorView::Options { .. } => r is None,
            },
    {
        match &self.editor {
            CellEditor::Text(text) => Some(text.caret()),
            CellEditor::Date { text, .. } => Some(text.caret()),
            CellEditor::Options { .. } => None,
        }
    }

    /// Copies the picker's text into the buffer the cell shows, caret at
    /// the end.
    pub fn sync_calendar(&mut self)
        ensures
            final(self).model() == match old(self).model().editor {
                EditorView::Date { calendar, .. } => CellEditModel {
                    editor: EditorView::Date { text: (calendar.query, calendar.query.len() as int), calendar },
                    ..old(self).model()
                },
                _ => old(self).model(),
            },
    {
        match &mut self.editor {
            CellEditor::Date { text, calendar } => {
                let q = calendar.query();
                text.set_text_at_end(q.as_str());
            }
            _ => {}
        }
    }

    /// Takes one change in the date picker, if this is a date edit, and
    /// copies its text into the buffer, caret at the end.
    pub fn calendar_step(&mut self, step: crate::calendar::CalendarStep)
        ensures
            final(self).model() == match old(self).model().editor {
                EditorView::Date { calendar, .. } => {
                    let c = crate::calendar::step_of(calendar, step);
                    CellEditModel { editor: EditorView::Date { text: (c.query, c.query.len() as int), calendar: c }, ..old(self).model() }
                },
                _ => old(self).model(),
            },
    {
        match &mut self.editor {
            CellEditor::Date { text, calendar } => {
                calendar.step(step);
                let q = calendar.query();
                text.set_text_at_end(q.as_str());
            }
            _ => {}
        }
    }

    /// Steps an options picker, wrapping through no value after the last
    /// option when the field allows it.
    pub fn cycle_option(&mut self, delta: i32)
        requires
            cycle_fits(old(self).model().editor, delta as int),
        ensures
            final(self).model() == (CellEditModel { editor: cycled(old(self).model().editor, delta as int), ..old(self).model() }),
    {
        match &mut self.editor {
            CellEditor::Options { options, cursor, allow_empty } => {
                if options.len() == 0 {
                    return;
                }
                let n: i64 = options.len() as i64;
                let len: i64 = n + if *allow_empty { 1 } else { 0 };
                let current: i64 = match *cursor {
                    Some(i) => i as i64,
                    None => n,
                };
                let next = wrap(current + delta as i64, len);
                *cursor = if next < n { Some(next as usize) } else { None };
            }
            _ => {}
        }
    }

    /// Carries out a text edit on the buffer, if the editor has one.
    pub fn edit_text(&mut self, op: TextOp)
        ensures
            final(self).model() == (CellEditModel { editor: text_edited(old(self).model().editor, op), ..old(self).model() }),
    {
        match &mut self.editor {
            CellEditor::Text(text) => text.apply(op),
            CellEditor::Date { text, .. } => text.apply(op),
            CellEditor::Options { .. } => {}
        }
    }

    /// Puts an options picker on no value, when the field allows it, and
    /// empties a text buffer.
    pub fn clear_value(&mut self)
        ensures
            final(self).model() == (CellEditModel { editor: cleared(old(self).model().editor), ..old(self).model() }),
    {
        match &mut self.editor {
            CellEditor::Options { cursor, allow_empty, .. } => {
                if *allow_empty {
                    *cursor = None;
                }
            }
            CellEditor::Text(text) => text.clear(),
            CellEditor::Date { text, .. } => text.clear(),
        }
    }

    /// The value the editor holds, as text.
    pub fn value(&self) -> (r: String)
        ensures
            r@ == editor_value(self.model().editor),
    {
        match &self.editor {
            CellEditor::Text(text) => text.text(),
            CellEditor::Date { text, .. } => text.text(),
            CellEditor::Options { options, cursor, .. } => match *cursor {
                Some(i) => if i < options.len() { options[i].clone() } else { String::new() },
                None => String::new(),
            },
        }
    }

    /// What the renderer draws for the open editor.
    pub fn render_view(&self) -> (r: CellEditView)
        ensures
            r.column == self.model().column,
            r.text@ == editor_value(self.model().editor),
            r.window_start == self.model().window_start,
            r.targets == self.model().targets.len(),
            match self.model().editor {
                EditorView::Text(t) => r.caret == Some(t.1 as usize),
                EditorView::Date { text, .. } => r.caret == Some(text.1 as usize),
                EditorView::Options { .. } => r.caret is None,
            },
    {
        CellEditView {
            column: self.column,
            text: self.value(),
            caret: self.caret(),
            window_start: self.window_start,
            targets: self.targets.len(),
        }
    }
}

/// `x` wrapped into `0..m`.
fn wrap(x: i64, m: i64) -> (r: i64)
    requires
        m > 0,
    ensures
        r == x % m,
        0 <= r < m,
{
    if x >= 0 {
        x % m
    } else {
        let y: i128 = -(x as i128);
        let k: i128 = y % (m as i128);
        proof { crate::autocomplete::lemma_neg_mod(y as int, m as int, k as int); }
        if k == 0 { 0 } else { (m as i128 - k) as i64 }
    }
}

/// Stepping an option ring by one and back by one returns to the same
/// option, or to no value.
pub proof fn lemma_cycle_round_trip(e: EditorView, delta: int)
    requires
        e matches EditorView::Options { options, cursor, allow_empty } && options.len() > 0
            && 0 <= ring_position(options, cursor) < options.len() + (if allow_empty { 1int } else { 0int })
            && (cursor matches Some(i) ==> i < options.len()),
    ensures
        cycled(cycled(e, delta), -delta) == e,
{
    match e {
        EditorView::Options { options, cursor, allow_empty } => {
            let len = options.len() + if allow_empty { 1int } else { 0int };
            let p = ring_position(options, cursor);
            let next = (p + delta) % len;
            let back = (next - delta) % len;
            assert(back == p) by {
                vstd::arithmetic::div_mod::lemma_add_mod_noop(p + delta, -delta, len);
                vstd::arithmetic::div_mod::lemma_add_mod_noop_right(next, -delta, len);
                vstd::arithmetic::div_mod::lemma_small_mod(p as nat, len as nat);
                assert(p + delta + (-delta) == p);
                assert(next + (-delta) == next - delta);
            }
            if next >= options.len() {
                assert(allow_empty);
                assert(next == options.len());
            }
        },
        _ => {},
    }
}

/// What the renderer needs to draw an open editor inside its cell.
#[derive(Clone, Debug, PartialEq, Eq)]
pub struct CellEditView {
    /// The column the editor is open on.
    pub column: usize,
    /// The text to draw in the cell.
    pub text: String,
    /// Where the caret sits, or `None` for a value picker.
    pub caret: Option<usize>,
    /// Where the visible window starts, as a char index into `text`.
    pub window_start: usize,
    /// How many tasks the commit applies to.
    pub targets: usize,
}

} // verus!
