//! Task records, and what each filter row reads of one: its text, its
//! label values, its date and who it is assigned to.

use vstd::prelude::*;
use crate::date::CivilDate;
use crate::filter::{FieldReading, ReadingView, TaskFilterFieldSpec, TaskFilterFieldState, texts};
use crate::text::{chars_of, push_char, push_str, starts_with_seq};
use crate::filter_rows::CustomFieldValues;

verus! {

/// One task as the table holds it.
#[derive(Debug)]
pub struct TaskRecord {
    pub gid: String,
    pub name: String,
    pub completed: bool,
    pub modified_at: Option<String>,
    pub parent_gid: Option<String>,
    pub subtask_depth: usize,
    /// The assignee's id, which a write names them by.
    pub assignee_gid: Option<String>,
    /// The assignee as shown.
    pub assignee: Option<String>,
    pub due_date: Option<String>,
    pub start_date: Option<String>,
    /// Where the task came in the order it was fetched.
    pub natural_order: usize,
    pub project_gids: Vec<String>,
    pub projects: Vec<String>,
    pub sections: Vec<String>,
    pub section_order: Option<usize>,
    /// Each custom field's values, by the field's id.
    pub custom_fields: Vec<(String, Vec<String>)>,
}

impl TaskRecord {
    /// A record of task `gid` named `name`, open, with nothing else known.
    pub fn new(gid: String, name: String) -> (r: TaskRecord)
        ensures
            r@ == (RecordView {
                gid: gid@,
                name: name@,
                completed: false,
                modified_at: None,
                parent_gid: None,
                subtask_depth: 0,
                assignee_gid: None,
                assignee: None,
                due_date: None,
                start_date: None,
                natural_order: 0,
                project_gids: Seq::empty(),
                projects: Seq::empty(),
                sections: Seq::empty(),
                section_order: None,
                custom_fields: Seq::empty(),
            }),
    {
        let r = TaskRecord {
            gid,
            name,
            completed: false,
            modified_at: None,
            parent_gid: None,
            subtask_depth: 0,
            assignee_gid: None,
            assignee: None,
            due_date: None,
            start_date: None,
            natural_order: 0,
            project_gids: Vec::new(),
            projects: Vec::new(),
            sections: Vec::new(),
            section_order: None,
            custom_fields: Vec::new(),
        };
        assert(texts(r.project_gids@) =~= Seq::<Seq<char>>::empty());
        assert(texts(r.projects@) =~= Seq::<Seq<char>>::empty());
        assert(texts(r.sections@) =~= Seq::<Seq<char>>::empty());
        assert(custom_view(r.custom_fields@) =~= Seq::<(Seq<char>, Seq<Seq<char>>)>::empty());
        r
    }
}

/// An optional text as plain values.
pub open spec fn opt_text(o: Option<String>) -> Option<Seq<char>> {
    match o {
        Some(s) => Some(s@),
        None => None,
    }
}

/// The custom-field values as plain values.
pub open spec fn custom_view(v: Seq<(String, Vec<String>)>) -> Seq<(Seq<char>, Seq<Seq<char>>)> {
    v.map_values(|p: (String, Vec<String>)| (p.0@, texts(p.1@)))
}

/// A task record as plain values.
pub struct RecordView {
    pub gid: Seq<char>,
    pub name: Seq<char>,
    pub completed: bool,
    pub modified_at: Option<Seq<char>>,
    pub parent_gid: Option<Seq<char>>,
    pub subtask_depth: int,
    pub assignee_gid: Option<Seq<char>>,
    pub assignee: Option<Seq<char>>,
    pub due_date: Option<Seq<char>>,
    pub start_date: Option<Seq<char>>,
    pub natural_order: int,
    pub project_gids: Seq<Seq<char>>,
    pub projects: Seq<Seq<char>>,
    pub sections: Seq<Seq<char>>,
    pub section_order: Option<int>,
    pub custom_fields: Seq<(Seq<char>, Seq<Seq<char>>)>,
}

impl View for TaskRecord {
    type V = RecordView;

    open spec fn view(&self) -> RecordView {
        RecordView {
            gid: self.gid@,
            name: self.name@,
            completed: self.completed,
            modified_at: opt_text(self.modified_at),
            parent_gid: opt_text(self.parent_gid),
            subtask_depth: self.subtask_depth as int,
            assignee_gid: opt_text(self.assignee_gid),
            assignee: opt_text(self.assignee),
            due_date: opt_text(self.due_date),
            start_date: opt_text(self.start_date),
            natural_order: self.natural_order as int,
            project_gids: texts(self.project_gids@),
            projects: texts(self.projects@),
            sections: texts(self.sections@),
            section_order: match self.section_order {
                Some(o) => Some(o as int),
                None => None,
            },
            custom_fields: custom_view(self.custom_fields@),
        }
    }
}

/// Words with a space between each.
pub open spec fn spaced(parts: Seq<Seq<char>>) -> Seq<char>
    decreases parts.len(),
{
    if parts.len() == 0 {
        Seq::empty()
    } else if parts.len() == 1 {
        parts[0]
    } else {
        spaced(parts.drop_last()) + seq![' '] + parts.last()
    }
}

/// The values a record holds for one custom field, by the first entry for
/// its id; none when it has none.
pub open spec fn values_for(fields: Seq<(Seq<char>, Seq<Seq<char>>)>, gid: Seq<char>) -> Seq<Seq<char>>
    decreases fields.len(),
{
    if fields.len() == 0 {
        Seq::empty()
    } else if fields[0].0 == gid {
        fields[0].1
    } else {
        values_for(fields.drop_first(), gid)
    }
}

/// Every value a record carries for these custom-field ids, in the ids'
/// order.
pub open spec fn custom_values_of(gids: Seq<Seq<char>>, r: RecordView) -> Seq<Seq<char>>
    decreases gids.len(),
{
    if gids.len() == 0 {
        Seq::empty()
    } else {
        custom_values_of(gids.drop_last(), r) + values_for(r.custom_fields, gids.last())
    }
}

/// What a row's key reads: the title, the assignee, the projects, or a
/// custom field's values, with a space between values.
pub open spec fn haystack_of(key: Seq<char>, gids: Seq<Seq<char>>, r: RecordView) -> Seq<char> {
    if key == "title"@ {
        r.name
    } else if key == "assignee"@ {
        match r.assignee { Some(a) => a, None => Seq::empty() }
    } else if key == "projects"@ {
        spaced(r.projects)
    } else if starts_with_seq(key, "custom:"@) {
        spaced(custom_values_of(gids, r))
    } else {
        Seq::empty()
    }
}

/// The label values a row's key reads: the state, or a custom field's values.
pub open spec fn labels_of(key: Seq<char>, gids: Seq<Seq<char>>, r: RecordView) -> Seq<Seq<char>> {
    if key == "state"@ {
        seq![if r.completed { "done"@ } else { "open"@ }]
    } else if starts_with_seq(key, "custom:"@) {
        custom_values_of(gids, r)
    } else {
        Seq::empty()
    }
}

/// The date text a row's key reads: the due date or the start date.
pub open spec fn date_text_of(key: Seq<char>, r: RecordView) -> Option<Seq<char>> {
    if key == "due"@ {
        r.due_date
    } else if key == "start"@ {
        r.start_date
    } else {
        None
    }
}

/// Whether a character is a decimal digit.
pub open spec fn is_digit(c: char) -> bool {
    '0' <= c && c <= '9'
}

/// The value of the digits `s[lo..hi]`.
pub open spec fn digits_value(s: Seq<char>, lo: int, hi: int) -> int
    decreases hi - lo,
{
    if hi <= lo { 0 } else { digits_value(s, lo, hi - 1) * 10 + (s[hi - 1] as int - '0' as int) }
}

/// A date written `YYYY-MM-DD`, as year, month and day.
pub open spec fn iso_parts(s: Seq<char>) -> Option<(int, int, int)> {
    if s.len() == 10 && s[4] == '-' && s[7] == '-'
        && (forall|i: int| 0 <= i < 10 && i != 4 && i != 7 ==> is_digit(#[trigger] s[i])) {
        Some((digits_value(s, 0, 4), digits_value(s, 5, 7), digits_value(s, 8, 10)))
    } else {
        None
    }
}

/// The day a date text names, as its ordinal, when it names a real day.
pub open spec fn date_ordinal_of(t: Option<Seq<char>>) -> Option<int> {
    match t {
        Some(s) => match iso_parts(s) {
            Some(d) => if crate::date::valid_ymd(d) { Some(crate::date::ordinal(d)) } else { None },
            None => None,
        },
        None => None,
    }
}

/// The Start row reads the task's start date and the Due row its due
/// date: each row's date is the day its own field names, and changing the
/// other field changes nothing the row reads.
pub proof fn lemma_date_rows_read_their_own_field(
    gids: Seq<Seq<char>>,
    r: RecordView,
    other: Option<Seq<char>>,
)
    ensures
        reading_of("start"@, gids, r).date == date_ordinal_of(r.start_date),
        reading_of("due"@, gids, r).date == date_ordinal_of(r.due_date),
        reading_of("start"@, gids, r) == reading_of("start"@, gids, RecordView { due_date: other, ..r }),
        reading_of("due"@, gids, r) == reading_of("due"@, gids, RecordView { start_date: other, ..r }),
{
    reveal_strlit("start");
    reveal_strlit("due");
    reveal_strlit("title");
    reveal_strlit("assignee");
    reveal_strlit("projects");
    reveal_strlit("state");
    reveal_strlit("custom:");
    assert("start"@ != "due"@);
    assert(!starts_with_seq("start"@, "custom:"@));
    assert(!starts_with_seq("due"@, "custom:"@));
}

/// What one row reads of a record.
pub open spec fn reading_of(key: Seq<char>, gids: Seq<Seq<char>>, r: RecordView) -> ReadingView {
    ReadingView {
        text: haystack_of(key, gids, r),
        labels: labels_of(key, gids, r),
        date: date_ordinal_of(date_text_of(key, r)),
        assignee_gid: r.assignee_gid,
    }
}

fn digits_at(s: &Vec<char>, lo: usize, hi: usize) -> (r: u32)
    requires
        lo <= hi <= s.len(),
        hi - lo <= 4,
        forall|i: int| lo <= i < hi ==> is_digit(#[trigger] s@[i]),
    ensures
        r == digits_value(s@, lo as int, hi as int),
        r < 10000,
    decreases hi - lo,
{
    if hi == lo {
        return 0;
    }
    let head = digits_at(s, lo, hi - 1);
    proof { lemma_digits_bound(s@, lo as int, hi - 1); }
    let d = (s[hi - 1] as u32) - ('0' as u32);
    assert(d <= 9);
    assert(head * 10 + d < 10000) by (nonlinear_arith)
        requires head < 1000, d <= 9;
    head * 10 + d
}

proof fn lemma_digits_bound(s: Seq<char>, lo: int, hi: int)
    requires
        lo <= hi,
        forall|i: int| lo <= i < hi ==> is_digit(#[trigger] s[i]),
    ensures
        0 <= digits_value(s, lo, hi),
        hi - lo <= 3 ==> digits_value(s, lo, hi) < 1000,
        hi - lo <= 2 ==> digits_value(s, lo, hi) < 100,
        hi - lo <= 1 ==> digits_value(s, lo, hi) < 10,
    decreases hi - lo,
{
    if hi > lo {
        lemma_digits_bound(s, lo, hi - 1);
    }
}

/// The day a `YYYY-MM-DD` text names, when it names a real day.
pub fn date_from_text(text: &str) -> (r: Option<CivilDate>)
    ensures
        match r {
            Some(d) => date_ordinal_of(Some(text@)) == Some(crate::date::ordinal(d@)),
            None => date_ordinal_of(Some(text@)) is None,
        },
{
    let s = chars_of(text);
    assert(s@ == text@);
    if s.len() != 10 || s[4] != '-' || s[7] != '-' {
        return None;
    }
    let mut i: usize = 0;
    while i < 10
        invariant
            s.len() == 10,
            s@ == text@,
            i <= 10,
            forall|j: int| 0 <= j < i && j != 4 && j != 7 ==> is_digit(#[trigger] s@[j]),
        decreases 10 - i,
    {
        if i != 4 && i != 7 && !('0' <= s[i] && s[i] <= '9') {
            assert(!is_digit(s@[i as int]));
            return None;
        }
        i += 1;
    }
    proof {
        lemma_digits_bound(s@, 0, 4);
        lemma_digits_bound(s@, 5, 7);
        lemma_digits_bound(s@, 8, 10);
    }
    let y = digits_at(&s, 0, 4);
    let m = digits_at(&s, 5, 7);
    let d = digits_at(&s, 8, 10);
    CivilDate::new(y as i32, m, d)
}

/// Words with a space between each.
fn join_spaced(parts: &[String]) -> (r: String)
    ensures
        r@ == spaced(texts(parts@)),
{
    let ghost ts = texts(parts@);
    let mut out = String::new();
    let mut i: usize = 0;
    while i < parts.len()
        invariant
            i <= parts.len(),
            ts == texts(parts@),
            out@ == spaced(ts.take(i as int)),
        decreases parts.len() - i,
    {
        if i > 0 {
            push_char(&mut out, ' ');
        }
        push_str(&mut out, parts[i].as_str());
        i += 1;
        assert(ts.take(i as int).drop_last() =~= ts.take(i - 1));
        assert(ts.take(i as int).last() == parts@[i - 1]@);
        if i == 1 {
            assert(out@ =~= spaced(ts.take(1)));
        }
    }
    assert(ts.take(parts.len() as int) =~= ts);
    out
}

/// The values a record holds for one custom field.
fn values_in(fields: &Vec<(String, Vec<String>)>, gid: &String) -> (r: Vec<String>)
    ensures
        texts(r@) == values_for(custom_view(fields@), gid@),
{
    let ghost cv = custom_view(fields@);
    let mut i: usize = 0;
    assert(cv.skip(0) =~= cv);
    while i < fields.len()
        invariant
            i <= fields.len(),
            cv == custom_view(fields@),
            values_for(cv, gid@) == values_for(cv.skip(i as int), gid@),
        decreases fields.len() - i,
    {
        assert(cv.skip(i as int).drop_first() =~= cv.skip(i + 1));
        assert(cv.skip(i as int)[0] == cv[i as int]);
        if fields[i].0 == *gid {
            let vals = &fields[i].1;
            let mut out: Vec<String> = Vec::new();
            let mut k: usize = 0;
            while k < vals.len()
                invariant
                    k <= vals.len(),
                    out@.len() == k,
                    forall|j: int| 0 <= j < k ==> (#[trigger] out@[j])@ == vals@[j]@,
                decreases vals.len() - k,
            {
                out.push(vals[k].clone());
                k += 1;
            }
            assert(texts(out@) =~= texts(vals@));
            assert(cv.skip(i as int)[0].1 == texts(vals@));
            return out;
        }
        i += 1;
    }
    assert(cv.skip(i as int) =~= Seq::<(Seq<char>, Seq<Seq<char>>)>::empty());
    Vec::new()
}

/// Every value a record carries for these custom-field ids, in the ids'
/// order.
pub fn values_of_ids(gids: &Vec<String>, record: &TaskRecord) -> (r: Vec<String>)
    ensures
        texts(r@) == custom_values_of(texts(gids@), record@),
{
    let ghost gs = texts(gids@);
    let mut out: Vec<String> = Vec::new();
    let mut i: usize = 0;
    while i < gids.len()
        invariant
            i <= gids.len(),
            gs == texts(gids@),
            texts(out@) == custom_values_of(gs.take(i as int), record@),
        decreases gids.len() - i,
    {
        let vs = values_in(&record.custom_fields, &gids[i]);
        let ghost before = out@;
        let mut k: usize = 0;
        while k < vs.len()
            invariant
                k <= vs.len(),
                out@.len() == before.len() + k,
                forall|j: int| 0 <= j < before.len() ==> (#[trigger] out@[j]) == before[j],
                forall|j: int| 0 <= j < k ==> (#[trigger] out@[before.len() + j])@ == vs@[j]@,
            decreases vs.len() - k,
        {
            out.push(vs[k].clone());
            k += 1;
        }
        assert forall|j: int| 0 <= j < out@.len() implies #[trigger] texts(out@)[j] == (texts(before) + texts(vs@))[j] by {
            if j >= before.len() {
                assert(out@[before.len() + (j - before.len())]@ == vs@[j - before.len()]@);
            }
        }
        assert(texts(out@) =~= texts(before) + texts(vs@));
        i += 1;
        assert(gs.take(i as int).drop_last() =~= gs.take(i - 1));
        assert(gs.take(i as int).last() == gids@[i - 1]@);
    }
    assert(gs.take(gids.len() as int) =~= gs);
    out
}

/// Every value a record carries for a row's custom-field ids.
pub fn custom_values(spec: &TaskFilterFieldSpec, record: &TaskRecord) -> (r: Vec<String>)
    ensures
        texts(r@) == custom_values_of(texts(spec.custom_gids@), record@),
{
    values_of_ids(&spec.custom_gids, record)
}

fn key_is(key: &String, word: &str) -> (r: bool)
    ensures
        r == (key@ == word@),
{
    crate::text::is_word(&chars_of(key.as_str()), word)
}

/// What one row reads of a record: the text it matches against, its label
/// values, its date, and who the task is assigned to.
pub fn reading(spec: &TaskFilterFieldSpec, record: &TaskRecord) -> (r: FieldReading)
    ensures
        r@ == reading_of(spec.key@, texts(spec.custom_gids@), record@),
{
    let key = &spec.key;
    let custom = crate::text::starts_with_chars(&chars_of(key.as_str()), &chars_of("custom:"));
    let text = if key_is(key, "title") {
        record.name.clone()
    } else if key_is(key, "assignee") {
        match &record.assignee {
            Some(a) => a.clone(),
            None => String::new(),
        }
    } else if key_is(key, "projects") {
        join_spaced(record.projects.as_slice())
    } else if custom {
        let vs = custom_values(spec, record);
        join_spaced(vs.as_slice())
    } else {
        String::new()
    };
    let labels: Vec<String> = if key_is(key, "state") {
        let word = if record.completed { "done" } else { "open" };
        let mut w = String::new();
        push_str(&mut w, word);
        let v = vec![w];
        assert(texts(v@) =~= seq![word@]);
        v
    } else if custom {
        custom_values(spec, record)
    } else {
        let v: Vec<String> = Vec::new();
        assert(texts(v@) =~= Seq::<Seq<char>>::empty());
        v
    };
    let date_text: Option<&String> = if key_is(key, "due") {
        record.due_date.as_ref()
    } else if key_is(key, "start") {
        record.start_date.as_ref()
    } else {
        None
    };
    let date = match date_text {
        Some(t) => date_from_text(t.as_str()),
        None => None,
    };
    let assignee_gid = match &record.assignee_gid {
        Some(g) => Some(g.clone()),
        None => None,
    };
    FieldReading { text, labels, date, assignee_gid }
}

/// What each row reads of a record, row by row.
pub fn readings(fields: &[TaskFilterFieldState], record: &TaskRecord) -> (r: Vec<FieldReading>)
    ensures
        r@.len() == fields@.len(),
        forall|i: int| 0 <= i < fields@.len() ==> (#[trigger] r@[i])@
            == reading_of(fields@[i].spec.key@, texts(fields@[i].spec.custom_gids@), record@),
{
    let mut out: Vec<FieldReading> = Vec::new();
    let mut i: usize = 0;
    while i < fields.len()
        invariant
            i <= fields.len(),
            out@.len() == i,
            forall|k: int| 0 <= k < i ==> (#[trigger] out@[k])@
                == reading_of(fields@[k].spec.key@, texts(fields@[k].spec.custom_gids@), record@),
        decreases fields.len() - i,
    {
        out.push(reading(&fields[i].spec, record));
        i += 1;
    }
    out
}

/// A section of a project, in the project's order.
#[derive(Debug)]
pub struct Section {
    pub gid: String,
    pub name: String,
}

/// The person a fetched task is assigned to.
#[derive(Debug)]
pub struct FetchedUser {
    pub gid: String,
    pub name: Option<String>,
    pub display_name: Option<String>,
}

/// One custom field's value on a fetched task: the text the server shows
/// for it, or the name of the option chosen.
#[derive(Debug)]
pub struct FetchedValue {
    pub gid: String,
    pub display_value: Option<String>,
    pub enum_name: Option<String>,
}

/// A task as the server sends it.
#[derive(Debug)]
pub struct FetchedTask {
    pub gid: String,
    pub name: String,
    pub completed: bool,
    pub modified_at: Option<String>,
    pub assignee: Option<FetchedUser>,
    pub due_on: Option<String>,
    pub start_on: Option<String>,
    pub num_subtasks: usize,
    /// The section of each of the task's project memberships, where it has one.
    pub membership_sections: Vec<Option<Section>>,
    pub custom_fields: Vec<FetchedValue>,
}

/// How an assignee is shown: the display name, else the name, else the id.
pub open spec fn shown_assignee(u: FetchedUser) -> Seq<char> {
    match u.display_name {
        Some(d) => d@,
        None => match u.name {
            Some(n) => n@,
            None => u.gid@,
        },
    }
}

/// The last of the project's sections with this id, or -1.
pub open spec fn section_at(sections: Seq<Section>, gid: Seq<char>) -> int
    decreases sections.len(),
{
    if sections.len() == 0 {
        -1
    } else if sections.last().gid@ == gid {
        sections.len() - 1
    } else {
        section_at(sections.drop_last(), gid)
    }
}

/// The section name and order a record takes, reading the memberships in
/// turn from `i`: what is inherited stands, a membership's section fills
/// what is missing (its name as the project lists it, else as the task
/// does), and reading stops once both are known.
pub open spec fn placed(
    ms: Seq<Option<Section>>,
    sections: Seq<Section>,
    name: Option<Seq<char>>,
    order: Option<int>,
    i: int,
) -> (Option<Seq<char>>, Option<int>)
    decreases ms.len() - i,
{
    if i >= ms.len() || i < 0 || (name is Some && order is Some) {
        (name, order)
    } else {
        match ms[i] {
            None => placed(ms, sections, name, order, i + 1),
            Some(sec) => {
                let k = section_at(sections, sec.gid@);
                let n = if name is Some { name } else if k >= 0 { Some(sections[k].name@) } else { Some(sec.name@) };
                let o = if order is Some { order } else if k >= 0 { Some(k) } else { None };
                placed(ms, sections, n, o, i + 1)
            },
        }
    }
}

/// A custom field's value, unless it is blank.
pub open spec fn value_of(f: FetchedValue) -> Option<Seq<char>> {
    let v = match f.display_value {
        Some(d) => Some(d@),
        None => match f.enum_name {
            Some(e) => Some(e@),
            None => None,
        },
    };
    match v {
        Some(t) => if crate::text::trim(t).len() > 0 { Some(t) } else { None },
        None => None,
    }
}

/// The custom values grouped by field id, each id where it first came,
/// its values in order.
pub open spec fn grouped(fs: Seq<FetchedValue>) -> Seq<(Seq<char>, Seq<Seq<char>>)>
    decreases fs.len(),
{
    if fs.len() == 0 {
        Seq::empty()
    } else {
        let g = grouped(fs.drop_last());
        let f = fs.last();
        match value_of(f) {
            None => g,
            Some(v) => {
                let k = entry_at(g, f.gid@);
                if k >= 0 { g.update(k, (g[k].0, g[k].1.push(v))) } else { g.push((f.gid@, seq![v])) }
            },
        }
    }
}

/// Where the entry for this field id is, or -1.
pub open spec fn entry_at(g: Seq<(Seq<char>, Seq<Seq<char>>)>, gid: Seq<char>) -> int
    decreases g.len(),
{
    if g.len() == 0 {
        -1
    } else if entry_at(g.drop_last(), gid) >= 0 {
        entry_at(g.drop_last(), gid)
    } else if g.last().0 == gid {
        g.len() - 1
    } else {
        -1
    }
}

/// The record a fetched task becomes, for a project (`target`, `project`)
/// and its sections, under a parent's section and order when it is a
/// subtask, at `depth`, `order`-th in the order fetched.
pub open spec fn record_of(
    target: Seq<char>,
    project: Seq<char>,
    sections: Seq<Section>,
    inherited: Option<Seq<char>>,
    inherited_order: Option<int>,
    parent: Option<Seq<char>>,
    depth: int,
    order: int,
    t: FetchedTask,
) -> RecordView {
    let (section, section_order) = placed(t.membership_sections@, sections, inherited, inherited_order, 0);
    RecordView {
        gid: t.gid@,
        name: t.name@,
        completed: t.completed,
        modified_at: opt_text(t.modified_at),
        parent_gid: parent,
        subtask_depth: depth,
        assignee_gid: match t.assignee { Some(u) => Some(u.gid@), None => None },
        assignee: match t.assignee { Some(u) => Some(shown_assignee(u)), None => None },
        due_date: opt_text(t.due_on),
        start_date: opt_text(t.start_on),
        natural_order: order,
        project_gids: seq![target],
        projects: seq![project],
        sections: match section { Some(n) => seq![n], None => Seq::empty() },
        section_order,
        custom_fields: grouped(t.custom_fields@),
    }
}

fn clone_opt(o: &Option<String>) -> (r: Option<String>)
    ensures
        opt_text(r) == opt_text(*o),
{
    match o {
        Some(s) => Some(s.clone()),
        None => None,
    }
}

/// The last of the project's sections with this id.
fn find_section(sections: &[Section], gid: &String) -> (r: Option<usize>)
    ensures
        match r {
            Some(k) => k < sections.len() && k as int == section_at(sections@, gid@),
            None => section_at(sections@, gid@) == -1,
        },
{
    let mut i: usize = sections.len();
    assert(sections@.take(sections.len() as int) =~= sections@);
    while i > 0
        invariant
            i <= sections.len(),
            section_at(sections@, gid@) == section_at(sections@.take(i as int), gid@),
        decreases i,
    {
        assert(sections@.take(i as int).drop_last() =~= sections@.take(i - 1));
        if sections[i - 1].gid == *gid {
            return Some(i - 1);
        }
        i -= 1;
    }
    None
}

/// Groups a task's custom values by field id.
fn group_values(fs: &Vec<FetchedValue>) -> (r: Vec<(String, Vec<String>)>)
    ensures
        custom_view(r@) == grouped(fs@),
{
    let mut out: Vec<(String, Vec<String>)> = Vec::new();
    let mut i: usize = 0;
    while i < fs.len()
        invariant
            i <= fs.len(),
            custom_view(out@) == grouped(fs@.take(i as int)),
        decreases fs.len() - i,
    {
        assert(fs@.take(i + 1).drop_last() =~= fs@.take(i as int));
        let f = &fs[i];
        let raw: Option<String> = match &f.display_value {
            Some(d) => Some(d.clone()),
            None => clone_opt(&f.enum_name),
        };
        let value: Option<String> = match raw {
            Some(t) => {
                let trimmed = crate::text::trim_chars(&chars_of(t.as_str()));
                if trimmed.len() > 0 { Some(t) } else { None }
            }
            None => None,
        };
        assert(opt_text(value) == value_of(*f));
        match value {
            None => {}
            Some(v) => {
                let ghost g = custom_view(out@);
                let mut k: usize = 0;
                let mut found: Option<usize> = None;
                while k < out.len()
                    invariant
                        k <= out.len(),
                        g == custom_view(out@),
                        found is None ==> entry_at(g.take(k as int), f.gid@) == -1,
                        found matches Some(x) ==> x < out.len() && x as int == entry_at(g, f.gid@),
                    decreases out.len() - k,
                {
                    if found.is_none() {
                        assert(g.take(k + 1).drop_last() =~= g.take(k as int));
                        if out[k].0 == f.gid {
                            proof { lemma_entry_stays(g, f.gid@, k + 1); }
                            found = Some(k);
                        }
                    }
                    k += 1;
                }
                assert(g.take(out.len() as int) =~= g);
                match found {
                    Some(x) => {
                        let ghost before = out@;
                        let (key, mut vals) = out.remove(x);
                        let ghost old_vals = vals@;
                        vals.push(v);
                        assert(texts(vals@) =~= texts(old_vals).push(v@));
                        let ghost entry = (key, vals);
                        out.insert(x, (key, vals));
                        assert(out@ =~= before.update(x as int, entry));
                        assert(custom_view(out@) =~= g.update(x as int, (g[x as int].0, g[x as int].1.push(v@))));
                    }
                    None => {
                        let ghost before = out@;
                        let key = f.gid.clone();
                        let one = vec![v];
                        assert(texts(one@) =~= seq![v@]);
                        out.push((key, one));
                        assert(custom_view(out@) =~= g.push((f.gid@, seq![v@])));
                    }
                }
            }
        }
        i += 1;
    }
    assert(fs@.take(fs.len() as int) =~= fs@);
    out
}

proof fn lemma_entry_stays(g: Seq<(Seq<char>, Seq<Seq<char>>)>, gid: Seq<char>, n: int)
    requires
        0 <= n <= g.len(),
        entry_at(g.take(n), gid) >= 0,
    ensures
        entry_at(g, gid) == entry_at(g.take(n), gid),
    decreases g.len() - n,
{
    if n < g.len() {
        assert(g.take(n + 1).drop_last() =~= g.take(n));
        lemma_entry_stays(g, gid, n + 1);
    } else {
        assert(g.take(n) =~= g);
    }
}

/// Builds the record a fetched task becomes, for a project (`target_gid`,
/// `project_name`) and its sections in order, with the section and order a
/// parent passes down to a subtask, the parent's id, the depth, and the
/// place in the order fetched. Also hands back the next place. The
/// subtasks themselves are fetched by the caller, each built with this
/// record's section, order and id, one level deeper.
pub fn record_for(
    target_gid: &str,
    project_name: &str,
    sections: &[Section],
    inherited_section: Option<String>,
    inherited_section_order: Option<usize>,
    parent_gid: Option<String>,
    depth: usize,
    natural_order: usize,
    task: &FetchedTask,
) -> (r: (TaskRecord, usize))
    ensures
        r.0@ == record_of(target_gid@, project_name@, sections@, opt_text(inherited_section),
            match inherited_section_order { Some(o) => Some(o as int), None => None },
            opt_text(parent_gid), depth as int, natural_order as int, *task),
        r.1 == if natural_order == usize::MAX { usize::MAX as int } else { natural_order + 1 },
{
    let ms = &task.membership_sections;
    let mut name = inherited_section;
    let mut order = inherited_section_order;
    let ghost sv = sections@;
    let mut i: usize = 0;
    while i < ms.len() && (name.is_none() || order.is_none())
        invariant
            i <= ms.len(),
            placed(ms@, sv, opt_text(inherited_section), match inherited_section_order { Some(o) => Some(o as int), None => None }, 0)
                == placed(ms@, sv, opt_text(name), match order { Some(o) => Some(o as int), None => None }, i as int),
            sv == sections@,
        decreases ms.len() - i,
    {
        match &ms[i] {
            None => {}
            Some(sec) => {
                let k = find_section(sections, &sec.gid);
                if name.is_none() {
                    name = match k {
                        Some(x) => Some(sections[x].name.clone()),
                        None => Some(sec.name.clone()),
                    };
                }
                if order.is_none() {
                    order = k;
                }
            }
        }
        i += 1;
    }
    let section_list: Vec<String> = match name {
        Some(n) => vec![n],
        None => Vec::new(),
    };
    assert(texts(section_list@) =~= match opt_text(name) { Some(n) => seq![n], None => Seq::<Seq<char>>::empty() });
    let (assignee_gid, assignee) = match &task.assignee {
        Some(u) => {
            let shown = match &u.display_name {
                Some(d) => d.clone(),
                None => match &u.name {
                    Some(n) => n.clone(),
                    None => u.gid.clone(),
                },
            };
            (Some(u.gid.clone()), Some(shown))
        }
        None => (None, None),
    };
    let mut gids: Vec<String> = Vec::new();
    let mut t = String::new();
    push_str(&mut t, target_gid);
    gids.push(t);
    let mut projects: Vec<String> = Vec::new();
    let mut pn = String::new();
    push_str(&mut pn, project_name);
    projects.push(pn);
    assert(texts(gids@) =~= seq![target_gid@]);
    assert(texts(projects@) =~= seq![project_name@]);
    let record = TaskRecord {
        gid: task.gid.clone(),
        name: task.name.clone(),
        completed: task.completed,
        modified_at: clone_opt(&task.modified_at),
        parent_gid,
        subtask_depth: depth,
        assignee_gid,
        assignee,
        due_date: clone_opt(&task.due_on),
        start_date: clone_opt(&task.start_on),
        natural_order,
        project_gids: gids,
        projects,
        sections: section_list,
        section_order: order,
        custom_fields: group_values(&task.custom_fields),
    };
    let next = if natural_order == usize::MAX { usize::MAX } else { natural_order + 1 };
    (record, next)
}

/// The place in the fetched order `k` places after `order`, held at the
/// largest machine index.
pub open spec fn order_after(order: int, k: int) -> int {
    if order + k > usize::MAX { usize::MAX as int } else { order + k }
}

/// The records a project's top-level tasks become, in the order fetched,
/// numbered on from `order`.
pub open spec fn records_from(
    target_gid: Seq<char>,
    project_name: Seq<char>,
    sections: Seq<Section>,
    tasks: Seq<FetchedTask>,
    order: int,
) -> Seq<RecordView>
    decreases tasks.len(),
{
    if tasks.len() == 0 {
        Seq::empty()
    } else {
        records_from(target_gid, project_name, sections, tasks.drop_last(), order).push(
            record_of(target_gid, project_name, sections, None, None, None, 0,
                order_after(order, tasks.len() - 1), tasks.last()))
    }
}

/// As many records as tasks.
proof fn lemma_records_from_len(
    target_gid: Seq<char>,
    project_name: Seq<char>,
    sections: Seq<Section>,
    tasks: Seq<FetchedTask>,
    order: int,
)
    ensures
        records_from(target_gid, project_name, sections, tasks, order).len() == tasks.len(),
    decreases tasks.len(),
{
    if tasks.len() > 0 {
        lemma_records_from_len(target_gid, project_name, sections, tasks.drop_last(), order);
    }
}

/// The records a project's top-level tasks become, in the order fetched and
/// numbered on from `order`; hands back the next place too. Each task's
/// subtasks are fetched separately and built with `record_for`.
pub fn records_from_tasks(
    target_gid: &str,
    project_name: &str,
    sections: &[Section],
    tasks: &[FetchedTask],
    order: usize,
) -> (r: (Vec<TaskRecord>, usize))
    ensures
        r.0@.len() == tasks@.len(),
        forall|i: int| 0 <= i < tasks@.len() ==> #[trigger] r.0@[i]@
            == records_from(target_gid@, project_name@, sections@, tasks@, order as int)[i],
        r.1 == order_after(order as int, tasks@.len() as int),
{
    let ghost all = records_from(target_gid@, project_name@, sections@, tasks@, order as int);
    let mut out: Vec<TaskRecord> = Vec::new();
    let mut next = order;
    let mut i: usize = 0;
    while i < tasks.len()
        invariant
            i <= tasks@.len(),
            out@.len() == i,
            next == order_after(order as int, i as int),
            forall|j: int| 0 <= j < i ==> #[trigger] out@[j]@
                == records_from(target_gid@, project_name@, sections@, tasks@.take(i as int), order as int)[j],
        decreases tasks.len() - i,
    {
        let (record, after) = record_for(target_gid, project_name, sections, None, None, None, 0, next, &tasks[i]);
        let ghost prefix = tasks@.take(i as int);
        let ghost longer = tasks@.take(i as int + 1);
        assert(longer.drop_last() =~= prefix);
        assert(longer.last() == tasks@[i as int]);
        proof {
            lemma_records_from_len(target_gid@, project_name@, sections@, prefix, order as int);
            let ghost before = records_from(target_gid@, project_name@, sections@, prefix, order as int);
            assert(records_from(target_gid@, project_name@, sections@, longer, order as int)
                == before.push(record@));
        }
        let ghost old_out = out@;
        out.push(record);
        proof {
            let before = records_from(target_gid@, project_name@, sections@, tasks@.take(i as int), order as int);
            assert forall|j: int| 0 <= j < i + 1 implies #[trigger] out@[j]@
                == records_from(target_gid@, project_name@, sections@, tasks@.take(i as int + 1), order as int)[j] by {
                if j < i {
                    assert(out@[j] == old_out[j]);
                }
            };
        }
        next = after;
        i += 1;
    }
    assert(tasks@.take(i as int) =~= tasks@);
    (out, next)
}

/// What the filter panel reads of a custom field's definition: its id and
/// its name.
#[derive(Debug)]
pub struct CustomFieldDefinition {
    pub gid: String,
    pub name: String,
}

/// The tasks loaded for the selected projects, and the definitions of the
/// custom fields those projects carry.
#[derive(Debug)]
pub struct TaskDataset {
    pub records: Vec<TaskRecord>,
    pub custom_field_definitions: Vec<CustomFieldDefinition>,
}

/// The definitions as plain values: id, then name.
pub open spec fn defs_view(d: Seq<CustomFieldDefinition>) -> Seq<(Seq<char>, Seq<char>)> {
    d.map_values(|x: CustomFieldDefinition| (x.gid@, x.name@))
}

/// The records as plain values.
pub open spec fn record_list(r: Seq<TaskRecord>) -> Seq<RecordView> {
    r.map_values(|x: TaskRecord| x@)
}

/// Where the group of fields named `name` stands, if there is one.
pub open spec fn group_index(g: Seq<(Seq<char>, Seq<Seq<char>>)>, name: Seq<char>) -> Option<int>
    decreases g.len(),
{
    if g.len() == 0 {
        None
    } else {
        match group_index(g.drop_last(), name) {
            Some(k) => Some(k),
            None => if g.last().0 == name { Some(g.len() - 1) } else { None },
        }
    }
}

/// The custom fields grouped by name, in the order each name first comes:
/// each group is the name and every id that carries it, in order.
pub open spec fn name_groups(defs: Seq<(Seq<char>, Seq<char>)>) -> Seq<(Seq<char>, Seq<Seq<char>>)>
    decreases defs.len(),
{
    if defs.len() == 0 {
        Seq::empty()
    } else {
        let g = name_groups(defs.drop_last());
        let gid = defs.last().0;
        let name = defs.last().1;
        match group_index(g, name) {
            Some(k) => g.update(k, (name, g[k].1.push(gid))),
            None => g.push((name, seq![gid])),
        }
    }
}

/// Every value the records carry for these ids, record by record.
pub open spec fn values_across(gids: Seq<Seq<char>>, recs: Seq<RecordView>) -> Seq<Seq<char>>
    decreases recs.len(),
{
    if recs.len() == 0 {
        Seq::empty()
    } else {
        values_across(gids, recs.drop_last()) + custom_values_of(gids, recs.last())
    }
}

/// A group found is one with that name, and none before it has it; a group
/// not found has no such name anywhere.
pub proof fn lemma_group_index(g: Seq<(Seq<char>, Seq<Seq<char>>)>, name: Seq<char>)
    ensures
        match group_index(g, name) {
            Some(k) => 0 <= k < g.len() && g[k].0 == name,
            None => forall|j: int| 0 <= j < g.len() ==> (#[trigger] g[j]).0 != name,
        },
    decreases g.len(),
{
    if g.len() > 0 {
        lemma_group_index(g.drop_last(), name);
        let d = g.drop_last();
        assert forall|j: int| 0 <= j < d.len() implies d[j] == g[j] by {};
    }
}

/// No two groups share a name; every defined field is in the group of its
/// name; and every id in a group is one whose definition carries that name.
pub proof fn lemma_groups_by_distinct_names(defs: Seq<(Seq<char>, Seq<char>)>)
    ensures
        forall|i: int, j: int| 0 <= i < j < name_groups(defs).len()
            ==> (#[trigger] name_groups(defs)[i]).0 != (#[trigger] name_groups(defs)[j]).0,
        forall|d: int| 0 <= d < defs.len() ==> exists|k: int| 0 <= k < name_groups(defs).len()
            && (#[trigger] name_groups(defs)[k]).0 == (#[trigger] defs[d]).1
            && name_groups(defs)[k].1.contains(defs[d].0),
        forall|k: int, x: Seq<char>| 0 <= k < name_groups(defs).len() && #[trigger] name_groups(defs)[k].1.contains(x)
            ==> exists|d: int| 0 <= d < defs.len() && (#[trigger] defs[d]).0 == x && defs[d].1 == name_groups(defs)[k].0,
    decreases defs.len(),
{
    if defs.len() > 0 {
        let e = defs.drop_last();
        lemma_groups_by_distinct_names(e);
        let g = name_groups(e);
        let gid = defs.last().0;
        let name = defs.last().1;
        lemma_group_index(g, name);
        let n = name_groups(defs);
        assert forall|d: int| 0 <= d < e.len() implies e[d] == defs[d] by {};
        match group_index(g, name) {
            Some(k) => {
                assert forall|i: int, j: int| 0 <= i < j < n.len() implies (#[trigger] n[i]).0 != (#[trigger] n[j]).0 by {
                    assert(g[i].0 != g[j].0);
                };
                assert forall|d: int| 0 <= d < defs.len() implies exists|m: int| 0 <= m < n.len()
                    && (#[trigger] n[m]).0 == (#[trigger] defs[d]).1 && n[m].1.contains(defs[d].0) by {
                    if d == defs.len() - 1 {
                        assert(n[k].1 == g[k].1.push(gid));
                        assert(n[k].1[g[k].1.len() as int] == gid);
                    } else {
                        assert(e[d] == defs[d]);
                        let m = choose|m: int| 0 <= m < g.len() && (#[trigger] g[m]).0 == (#[trigger] e[d]).1 && g[m].1.contains(e[d].0);
                        if m == k {
                            let w = choose|w: int| 0 <= w < g[k].1.len() && g[k].1[w] == e[d].0;
                            assert(n[k].1[w] == e[d].0);
                        } else {
                            assert(n[m] == g[m]);
                        }
                    }
                };
                assert forall|m: int, x: Seq<char>| 0 <= m < n.len() && #[trigger] n[m].1.contains(x)
                    implies exists|d: int| 0 <= d < defs.len() && (#[trigger] defs[d]).0 == x && defs[d].1 == n[m].0 by {
                    if m == k {
                        let w = choose|w: int| 0 <= w < n[k].1.len() && n[k].1[w] == x;
                        if w == g[k].1.len() {
                            assert(defs[defs.len() - 1].0 == x);
                        } else {
                            assert(g[k].1[w] == x);
                            assert(g[k].1.contains(x));
                            let d = choose|d: int| 0 <= d < e.len() && (#[trigger] e[d]).0 == x && e[d].1 == g[k].0;
                            assert(defs[d] == e[d]);
                        }
                    } else {
                        assert(n[m] == g[m]);
                        let d = choose|d: int| 0 <= d < e.len() && (#[trigger] e[d]).0 == x && e[d].1 == g[m].0;
                        assert(defs[d] == e[d]);
                    }
                };
            },
            None => {
                assert forall|i: int, j: int| 0 <= i < j < n.len() implies (#[trigger] n[i]).0 != (#[trigger] n[j]).0 by {
                    if j < g.len() {
                        assert(g[i].0 != g[j].0);
                    } else {
                        assert(n[j].0 == name);
                        assert(n[i] == g[i]);
                    }
                };
                assert forall|d: int| 0 <= d < defs.len() implies exists|m: int| 0 <= m < n.len()
                    && (#[trigger] n[m]).0 == (#[trigger] defs[d]).1 && n[m].1.contains(defs[d].0) by {
                    if d == defs.len() - 1 {
                        assert(n[g.len() as int].1[0] == gid);
                    } else {
                        assert(e[d] == defs[d]);
                        let m = choose|m: int| 0 <= m < g.len() && (#[trigger] g[m]).0 == (#[trigger] e[d]).1 && g[m].1.contains(e[d].0);
                        assert(n[m] == g[m]);
                    }
                };
                assert forall|m: int, x: Seq<char>| 0 <= m < n.len() && #[trigger] n[m].1.contains(x)
                    implies exists|d: int| 0 <= d < defs.len() && (#[trigger] defs[d]).0 == x && defs[d].1 == n[m].0 by {
                    if m == g.len() {
                        let w = choose|w: int| 0 <= w < n[m].1.len() && n[m].1[w] == x;
                        assert(defs[defs.len() - 1].0 == x);
                    } else {
                        assert(n[m] == g[m]);
                        let d = choose|d: int| 0 <= d < e.len() && (#[trigger] e[d]).0 == x && e[d].1 == g[m].0;
                        assert(defs[d] == e[d]);
                    }
                };
            },
        }
    }
}

/// The groups as plain values: name, then ids.
pub open spec fn groups_view(g: Seq<CustomFieldValues>) -> Seq<(Seq<char>, Seq<Seq<char>>)> {
    g.map_values(|c: CustomFieldValues| (c.name@, texts(c.gids@)))
}

/// Where the group named `name` stands, if there is one.
fn find_group(groups: &Vec<CustomFieldValues>, name: &String) -> (r: Option<usize>)
    ensures
        (match r { Some(k) => Some(k as int), None => None }) == group_index(groups_view(groups@), name@),
        r matches Some(k) ==> k < groups@.len(),
{
    let ghost gv = groups_view(groups@);
    let mut i: usize = 0;
    while i < groups.len()
        invariant
            i <= groups@.len(),
            gv == groups_view(groups@),
            group_index(gv.take(i as int), name@) is None,
        decreases groups.len() - i,
    {
        assert(gv.take(i as int + 1).drop_last() =~= gv.take(i as int));
        assert(gv[i as int].0 == groups@[i as int].name@);
        if groups[i].name == *name {
            proof { lemma_group_prefix(gv, name@, i as int + 1); }
            return Some(i);
        }
        i += 1;
    }
    assert(gv.take(i as int) =~= gv);
    None
}

/// A group found in a prefix is found at the same place in the whole list.
proof fn lemma_group_prefix(g: Seq<(Seq<char>, Seq<Seq<char>>)>, name: Seq<char>, n: int)
    requires
        0 <= n <= g.len(),
        group_index(g.take(n), name) is Some,
    ensures
        group_index(g, name) == group_index(g.take(n), name),
    decreases g.len(),
{
    if n < g.len() {
        assert(g.drop_last().take(n) =~= g.take(n));
        lemma_group_prefix(g.drop_last(), name, n);
    } else {
        assert(g.take(n) =~= g);
    }
}

/// Every value the records carry for these ids, record by record.
pub fn values_across_records(gids: &Vec<String>, records: &Vec<TaskRecord>) -> (r: Vec<String>)
    ensures
        texts(r@) == values_across(texts(gids@), record_list(records@)),
{
    let ghost rl = record_list(records@);
    let mut out: Vec<String> = Vec::new();
    let mut i: usize = 0;
    while i < records.len()
        invariant
            i <= records@.len(),
            rl == record_list(records@),
            texts(out@) == values_across(texts(gids@), rl.take(i as int)),
        decreases records.len() - i,
    {
        assert(rl.take(i as int + 1).drop_last() =~= rl.take(i as int));
        assert(rl[i as int] == records@[i as int]@);
        let mut more = values_of_ids(gids, &records[i]);
        let ghost before = out@;
        let ghost added = more@;
        out.append(&mut more);
        assert(texts(out@) =~= texts(before) + texts(added));
        i += 1;
    }
    assert(rl.take(i as int) =~= rl);
    out
}

/// The dataset's custom fields grouped by name, in the order each name
/// first comes, each with every id that carries the name and every value
/// the records hold for those ids.
pub fn group_custom_fields(dataset: &TaskDataset) -> (r: Vec<CustomFieldValues>)
    ensures
        groups_view(r@) == name_groups(defs_view(dataset.custom_field_definitions@)),
        forall|i: int| 0 <= i < r@.len() ==> #[trigger] texts(r@[i].values@)
            == values_across(texts(r@[i].gids@), record_list(dataset.records@)),
{
    let defs = &dataset.custom_field_definitions;
    let ghost dv = defs_view(defs@);
    let mut groups: Vec<CustomFieldValues> = Vec::new();
    let mut i: usize = 0;
    while i < defs.len()
        invariant
            i <= defs@.len(),
            dv == defs_view(defs@),
            groups_view(groups@) == name_groups(dv.take(i as int)),
        decreases defs.len() - i,
    {
        let ghost g = groups_view(groups@);
        assert(dv.take(i as int + 1).drop_last() =~= dv.take(i as int));
        assert(dv[i as int] == (defs@[i as int].gid@, defs@[i as int].name@));
        let def = &defs[i];
        match find_group(&groups, &def.name) {
            Some(k) => {
                let ghost old_groups = groups@;
                proof { lemma_group_index(g, def.name@); }
                assert(g[k as int].0 == old_groups[k as int].name@);
                groups[k].gids.push(def.gid.clone());
                assert(groups@[k as int].name == old_groups[k as int].name);
                assert forall|j: int| 0 <= j < groups@.len() implies
                    #[trigger] groups_view(groups@)[j] == g.update(k as int, (def.name@, g[k as int].1.push(def.gid@)))[j] by {
                    if j == k {
                        assert(texts(groups@[j].gids@) =~= texts(old_groups[j].gids@).push(def.gid@));
                    } else {
                        assert(groups@[j] == old_groups[j]);
                    }
                };
                assert(groups_view(groups@) =~= g.update(k as int, (def.name@, g[k as int].1.push(def.gid@))));
            },
            None => {
                let mut ids: Vec<String> = Vec::new();
                ids.push(def.gid.clone());
                assert(texts(ids@) =~= seq![def.gid@]);
                groups.push(CustomFieldValues { name: def.name.clone(), gids: ids, values: Vec::new() });
                assert(groups_view(groups@) =~= g.push((def.name@, seq![def.gid@])));
            },
        }
        i += 1;
    }
    assert(dv.take(i as int) =~= dv);
    let ghost final_view = groups_view(groups@);
    let mut j: usize = 0;
    while j < groups.len()
        invariant
            j <= groups@.len(),
            groups_view(groups@) == final_view,
            forall|k: int| 0 <= k < j ==> #[trigger] texts(groups@[k].values@)
                == values_across(texts(groups@[k].gids@), record_list(dataset.records@)),
        decreases groups.len() - j,
    {
        let values = values_across_records(&groups[j].gids, &dataset.records);
        let ghost old_groups = groups@;
        let ghost want = values_across(texts(old_groups[j as int].gids@), record_list(dataset.records@));
        assert(texts(values@) == want);
        groups[j].values = values;
        assert(groups@[j as int].gids == old_groups[j as int].gids);
        assert(groups@[j as int].name == old_groups[j as int].name);
        assert forall|k: int| 0 <= k < groups@.len() implies #[trigger] groups_view(groups@)[k] == final_view[k] by {
            if k != j {
                assert(groups@[k] == old_groups[k]);
            }
        };
        assert(groups_view(groups@) =~= final_view);
        assert(groups@[j as int].values == values);
        assert forall|k: int| 0 <= k <= j implies #[trigger] texts(groups@[k].values@)
            == values_across(texts(groups@[k].gids@), record_list(dataset.records@)) by {
            if k < j {
                assert(groups@[k] == old_groups[k]);
                assert(texts(old_groups[k].values@)
                    == values_across(texts(old_groups[k].gids@), record_list(dataset.records@)));
            }
        };
        j += 1;
    }
    groups
}

} // verus!
