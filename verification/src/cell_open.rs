//! Which editor a cell opens with: the title as text, a date with its
//! picker, the done state as a pair of options, a custom field's options or
//! its text; and when a cell cannot be edited, why not.

use vstd::prelude::*;
use crate::app::{decimal, push_decimal};
use crate::calendar::{CalendarState, open_of};
use crate::date::CivilDate;
use crate::filter::texts;
use crate::records::{RecordView, TaskRecord};
use crate::task_edit::{CellEditor, EditorView};
use crate::text::{chars_of, eq_chars, lower, lower_chars, push_str, trim, trim_chars};
use crate::text_edit::TextEdit;

verus! {

/// What the column under the cursor edits, as far as opening an editor
/// needs to know.
#[derive(Debug)]
pub enum EditField {
    Title,
    Due,
    Start,
    /// Whether the task is done.
    State,
    /// A custom field with a fixed set of options, by name.
    Choice(Vec<String>),
    /// A custom field holding text or a number.
    Free,
    /// A field this view cannot edit, or a column no field stands behind.
    Unsupported,
}

/// A field as plain values.
pub enum FieldView {
    Title,
    Due,
    Start,
    State,
    Choice(Seq<Seq<char>>),
    Free,
    Unsupported,
}

impl View for EditField {
    type V = FieldView;

    open spec fn view(&self) -> FieldView {
        match self {
            EditField::Title => FieldView::Title,
            EditField::Due => FieldView::Due,
            EditField::Start => FieldView::Start,
            EditField::State => FieldView::State,
            EditField::Choice(names) => FieldView::Choice(texts(names@)),
            EditField::Free => FieldView::Free,
            EditField::Unsupported => FieldView::Unsupported,
        }
    }
}

/// The first option whose name is `current`, trimmed, up to ASCII case.
pub open spec fn option_position(names: Seq<Seq<char>>, current: Seq<char>) -> Option<int>
    decreases names.len(),
{
    if names.len() == 0 {
        None
    } else {
        match option_position(names.drop_last(), current) {
            Some(i) => Some(i),
            None => if lower(names.last()) == lower(trim(current)) { Some(names.len() - 1) } else { None },
        }
    }
}

/// What a blank optional text reads as.
pub open spec fn or_empty(o: Option<Seq<char>>) -> Seq<char> {
    match o {
        Some(t) => t,
        None => Seq::empty(),
    }
}

/// A date editor on `value`, its picker opened under `label`.
pub open spec fn date_editor(label: Seq<char>, value: Seq<char>, today: (int, int, int)) -> EditorView {
    EditorView::Date { text: (value, value.len() as int), calendar: open_of(label, value, today, true) }
}

/// The editor a cell of `field` opens with for `record`, whose cell reads
/// `current`, when `count` tasks are being edited; or why it cannot open.
pub open spec fn opened_editor(
    field: FieldView,
    record: RecordView,
    current: Seq<char>,
    count: int,
    today: (int, int, int),
) -> Result<EditorView, Seq<char>> {
    match field {
        FieldView::Title => if count > 1 {
            Err("a title is edited one task at a time ("@ + decimal(count as nat) + " selected)"@)
        } else {
            Ok(EditorView::Text((record.name, record.name.len() as int)))
        },
        FieldView::Due => Ok(date_editor("Due"@, or_empty(record.due_date), today)),
        FieldView::Start => Ok(date_editor("Start"@, or_empty(record.start_date), today)),
        FieldView::State => Ok(EditorView::Options {
            options: seq!["open"@, "done"@],
            cursor: Some(if record.completed { 1int } else { 0int }),
            allow_empty: false,
        }),
        FieldView::Choice(names) => Ok(EditorView::Options {
            options: names,
            cursor: option_position(names, current),
            allow_empty: true,
        }),
        FieldView::Free => Ok(EditorView::Text((current, current.len() as int))),
        FieldView::Unsupported => Err("this field cannot be edited here yet"@),
    }
}

/// Where among `names` the value `current` stands, matched trimmed and up
/// to ASCII case.
pub fn find_option(names: &Vec<String>, current: &str) -> (r: Option<usize>)
    ensures
        (match r { Some(i) => Some(i as int), None => None }) == option_position(texts(names@), current@),
{
    let ghost ns = texts(names@);
    let cur = chars_of(current);
    let wanted = lower_chars(&trim_chars(&cur));
    let mut i: usize = 0;
    while i < names.len()
        invariant
            i <= names@.len(),
            ns == texts(names@),
            wanted@ == lower(trim(current@)),
            option_position(ns.take(i as int), current@) is None,
        decreases names.len() - i,
    {
        assert(ns.take(i as int + 1).drop_last() =~= ns.take(i as int));
        assert(ns[i as int] == names@[i as int]@);
        let name = lower_chars(&chars_of(names[i].as_str()));
        if eq_chars(&name, &wanted) {
            proof { lemma_option_prefix(ns, current@, i as int + 1); }
            return Some(i);
        }
        i += 1;
    }
    assert(ns.take(i as int) =~= ns);
    None
}

/// An option found in a prefix is found at the same place in the whole list.
proof fn lemma_option_prefix(names: Seq<Seq<char>>, current: Seq<char>, n: int)
    requires
        0 <= n <= names.len(),
        option_position(names.take(n), current) is Some,
    ensures
        option_position(names, current) == option_position(names.take(n), current),
    decreases names.len(),
{
    if n < names.len() {
        assert(names.drop_last().take(n) =~= names.take(n));
        lemma_option_prefix(names.drop_last(), current, n);
    } else {
        assert(names.take(n) =~= names);
    }
}

/// A copy of an optional text, or the empty text.
fn text_or_empty(o: &Option<String>) -> (r: String)
    ensures
        r@ == or_empty(match o { Some(t) => Some(t@), None => None }),
{
    match o {
        Some(t) => t.clone(),
        None => String::new(),
    }
}

/// Opens the editor a cell of `field` takes for `record`, whose cell reads
/// `current`, when `count` tasks are being edited; or says why it cannot.
pub fn open_editor(
    field: &EditField,
    record: &TaskRecord,
    current: &str,
    count: usize,
    today: CivilDate,
) -> (r: Result<CellEditor, String>)
    ensures
        (match r { Ok(e) => Ok(e@), Err(m) => Err(m@) })
            == opened_editor(field@, record@, current@, count as int, today@),
{
    match field {
        EditField::Title => {
            if count > 1 {
                let mut message = String::new();
                push_str(&mut message, "a title is edited one task at a time (");
                push_decimal(&mut message, count);
                push_str(&mut message, " selected)");
                Err(message)
            } else {
                Ok(CellEditor::Text(TextEdit::from_chars(chars_of(record.name.as_str()))))
            }
        },
        EditField::Due | EditField::Start => {
            let is_due = match field { EditField::Due => true, _ => false };
            let value = if is_due { text_or_empty(&record.due_date) } else { text_or_empty(&record.start_date) };
            let label = if is_due { "Due" } else { "Start" };
            let calendar = CalendarState::open(label, value.as_str(), today);
            Ok(CellEditor::Date { text: TextEdit::from_chars(chars_of(value.as_str())), calendar })
        },
        EditField::State => {
            let options = vec!["open".to_string(), "done".to_string()];
            let cursor: usize = if record.completed { 1 } else { 0 };
            let r = CellEditor::Options { options, cursor: Some(cursor), allow_empty: false };
            assert(r@ == (EditorView::Options {
                options: seq!["open"@, "done"@],
                cursor: Some(if record.completed { 1int } else { 0int }),
                allow_empty: false,
            })) by {
                assert(crate::task_edit::strings_view(options@) =~= seq!["open"@, "done"@]);
            };
            Ok(r)
        },
        EditField::Choice(names) => {
            let cursor = find_option(names, current);
            let mut options: Vec<String> = Vec::new();
            let mut i: usize = 0;
            while i < names.len()
                invariant
                    i <= names@.len(),
                    texts(options@) == texts(names@).take(i as int),
                decreases names.len() - i,
            {
                let ghost before = texts(options@);
                let c = names[i].clone();
                assert(c@ == texts(names@)[i as int]);
                options.push(c);
                assert(texts(options@) =~= before.push(texts(names@)[i as int]));
                assert(texts(names@).take(i as int + 1) =~= texts(names@).take(i as int).push(texts(names@)[i as int]));
                i += 1;
                assert(texts(options@) =~= texts(names@).take(i as int));
            }
            assert(texts(names@).take(i as int) =~= texts(names@));
            Ok(CellEditor::Options { options, cursor, allow_empty: true })
        },
        EditField::Free => Ok(CellEditor::Text(TextEdit::from_chars(chars_of(current)))),
        EditField::Unsupported => Err("this field cannot be edited here yet".to_string()),
    }
}

/// The state cell opens on the option that names the task's current
/// state, out of the two there are, and cannot be left empty: committing it
/// untouched leaves an open task open and a done task done.
pub proof fn lemma_state_editor_opens_on_the_current_state(
    record: RecordView,
    current: Seq<char>,
    count: int,
    today: (int, int, int),
)
    ensures
        opened_editor(FieldView::State, record, current, count, today) matches Ok(EditorView::Options { options, cursor: Some(c), allow_empty })
            && 0 <= c < options.len()
            && options[c] == (if record.completed { "done"@ } else { "open"@ })
            && options.len() == 2
            && options.contains("open"@)
            && options.contains("done"@)
            && !allow_empty,
{
    let options = seq!["open"@, "done"@];
    assert(options[0] == "open"@);
    assert(options[1] == "done"@);
}

/// A date cell opens on its own field: the Due cell on the task's due date
/// and the Start cell on its start date, each with the caret at the end and
/// the picker labelled for it; a title opens on the task's name when one
/// task is edited.
pub proof fn lemma_cells_open_on_their_own_value(
    record: RecordView,
    current: Seq<char>,
    count: int,
    today: (int, int, int),
)
    ensures
        opened_editor(FieldView::Due, record, current, count, today) matches Ok(EditorView::Date { text, calendar })
            && text.0 == or_empty(record.due_date) && text.1 == text.0.len() && calendar.label == "Due"@,
        opened_editor(FieldView::Start, record, current, count, today) matches Ok(EditorView::Date { text, calendar })
            && text.0 == or_empty(record.start_date) && text.1 == text.0.len() && calendar.label == "Start"@,
        count <= 1 ==> opened_editor(FieldView::Title, record, current, count, today) == Ok::<EditorView, Seq<char>>(
            EditorView::Text((record.name, record.name.len() as int))),
{
}

} // verus!
