//! The rows a filter panel is built with: the task's own fields, and one
//! row per custom field, whose kind is read off the values seen so far.

use vstd::prelude::*;
use crate::filter::{FieldView, TaskFieldFilterKind, TaskFieldStringMode, TaskFilterFieldSpec, TaskFilterFieldState, fields_view, texts};
use crate::order::{chars_less, chars_lt, lemma_lt_connected, lemma_lt_transitive};
use crate::text::{chars_of, concat_chars, eq_chars, is_space, is_space_char, string_from_chars};
use crate::records::{TaskDataset, defs_view, group_custom_fields, groups_view, lemma_groups_by_distinct_names, name_groups, record_list, values_across};

verus! {

/// The most distinct values a custom field may have and still be offered
/// as labels.
pub const MAX_LABEL_VALUES: usize = 12;

/// The longest value, in UTF-8 bytes, a labels field may hold.
pub const MAX_LABEL_BYTES: usize = 32;

/// How many bytes a character takes in UTF-8.
pub open spec fn utf8_width(c: char) -> nat {
    let n = c as u32;
    if n < 0x80 { 1 } else if n < 0x800 { 2 } else if n < 0x10000 { 3 } else { 4 }
}

/// How many bytes a text takes in UTF-8.
pub open spec fn utf8_len(s: Seq<char>) -> nat
    decreases s.len(),
{
    if s.len() == 0 { 0 } else { utf8_len(s.drop_last()) + utf8_width(s.last()) }
}

/// Whether a value reads as a label: short, and with no whitespace but
/// plain spaces.
pub open spec fn label_like(v: Seq<char>) -> bool {
    &&& utf8_len(v) <= MAX_LABEL_BYTES
    &&& forall|i: int| 0 <= i < v.len() ==> (!is_space(#[trigger] v[i]) || v[i] == ' ')
}

/// The kind a custom field's row takes, from its distinct values: labels
/// when there are a few short ones, text otherwise.
pub open spec fn kind_for(values: Seq<Seq<char>>) -> TaskFieldFilterKind {
    if values.len() > 0 && values.len() <= MAX_LABEL_VALUES
        && forall|i: int| 0 <= i < values.len() ==> label_like(#[trigger] values[i]) {
        TaskFieldFilterKind::Labels
    } else {
        TaskFieldFilterKind::String
    }
}

/// Whether a list is in strictly increasing order.
pub open spec fn strictly_sorted(v: Seq<Seq<char>>) -> bool {
    forall|i: int, j: int| 0 <= i < j < v.len() ==> chars_lt(#[trigger] v[i], #[trigger] v[j])
}

/// Whether a text is spelled by a character count under the byte cap.
fn fits_label(v: &Vec<char>) -> (r: bool)
    ensures
        r == label_like(v@),
{
    let mut bytes: usize = 0;
    let mut i: usize = 0;
    let mut plain = true;
    while i < v.len()
        invariant
            i <= v.len(),
            bytes == utf8_len(v@.take(i as int)),
            bytes <= MAX_LABEL_BYTES,
            plain == forall|k: int| 0 <= k < i ==> (!is_space(#[trigger] v@[k]) || v@[k] == ' '),
        decreases v.len() - i,
    {
        assert(v@.take(i as int + 1).drop_last() == v@.take(i as int));
        assert(v@.take(i as int + 1).last() == v@[i as int]);
        let c = v[i];
        let n = c as u32;
        let w: usize = if n < 0x80 { 1 } else if n < 0x800 { 2 } else if n < 0x10000 { 3 } else { 4 };
        if bytes + w > MAX_LABEL_BYTES {
            proof { lemma_utf8_len_grows(v@, i as int + 1); }
            return false;
        }
        bytes = bytes + w;
        if is_space_char(c) && c != ' ' {
            plain = false;
        }
        i += 1;
    }
    assert(v@.take(i as int) == v@);
    plain
}

proof fn lemma_utf8_len_grows(s: Seq<char>, n: int)
    requires
        0 <= n <= s.len(),
    ensures
        utf8_len(s.take(n)) <= utf8_len(s),
    decreases s.len() - n,
{
    if n < s.len() {
        lemma_utf8_len_grows(s, n + 1);
        assert(s.take(n + 1).drop_last() == s.take(n));
    } else {
        assert(s.take(n) == s);
    }
}

/// The distinct values, in increasing order.
pub fn sorted_distinct(values: &Vec<String>) -> (r: Vec<String>)
    ensures
        strictly_sorted(texts(r@)),
        forall|x: Seq<char>| texts(r@).contains(x) <==> texts(values@).contains(x),
{
    let ghost vs = texts(values@);
    let mut out: Vec<String> = Vec::new();
    let mut i: usize = 0;
    while i < values.len()
        invariant
            i <= values.len(),
            vs == texts(values@),
            strictly_sorted(texts(out@)),
            forall|x: Seq<char>| texts(out@).contains(x) <==> vs.take(i as int).contains(x),
        decreases values.len() - i,
    {
        let v = chars_of(values[i].as_str());
        let ghost os = texts(out@);
        let mut k: usize = 0;
        while k < out.len() && chars_less(&chars_of(out[k].as_str()), &v)
            invariant
                k <= out.len(),
                os == texts(out@),
                v@ == vs[i as int],
                forall|j: int| 0 <= j < k ==> chars_lt(#[trigger] os[j], v@),
            decreases out.len() - k,
        {
            k += 1;
        }
        let present = k < out.len() && eq_chars(&chars_of(out[k].as_str()), &v);
        assert(vs.take(i as int + 1) == vs.take(i as int).push(vs[i as int]));
        if present {
            assert(os[k as int] == v@);
            assert forall|x: Seq<char>| texts(out@).contains(x) <==> vs.take(i as int + 1).contains(x) by {
                if vs.take(i as int + 1).contains(x) && x == v@ {
                    assert(texts(out@)[k as int] == x);
                }
            }
        } else {
            proof {
                if k < out.len() {
                    lemma_lt_connected(os[k as int], v@);
                }
            }
            let s = values[i].clone();
            out.insert(k, s);
            let ghost ns = texts(out@);
            assert(ns =~= os.insert(k as int, v@));
            assert forall|a: int, b: int| 0 <= a < b < ns.len() implies chars_lt(#[trigger] ns[a], #[trigger] ns[b]) by {
                if b == k {
                    assert(ns[a] == os[a]);
                } else if a == k {
                    assert(ns[b] == os[b - 1]);
                    if b - 1 > k {
                        assert(chars_lt(os[k as int], os[b - 1]));
                        lemma_lt_transitive(v@, os[k as int], os[b - 1]);
                    }
                } else if a < k && b < k {
                    assert(ns[a] == os[a] && ns[b] == os[b]);
                } else if a < k {
                    assert(ns[a] == os[a] && ns[b] == os[b - 1]);
                    if a != b - 1 {
                        assert(chars_lt(os[a], os[b - 1]));
                    }
                } else {
                    assert(ns[a] == os[a - 1] && ns[b] == os[b - 1]);
                }
            }
            assert forall|x: Seq<char>| ns.contains(x) <==> vs.take(i as int + 1).contains(x) by {
                if ns.contains(x) {
                    let j = choose|j: int| 0 <= j < ns.len() && ns[j] == x;
                    if j < k {
                        assert(os[j] == x);
                        assert(os.contains(x));
                    } else if j > k {
                        assert(os[j - 1] == x);
                        assert(os.contains(x));
                    } else {
                        assert(vs.take(i as int + 1)[i as int] == x);
                    }
                }
                if vs.take(i as int + 1).contains(x) {
                    if x == v@ {
                        assert(ns[k as int] == x);
                    } else {
                        let t1 = vs.take(i as int + 1);
                        let j0 = choose|j0: int| 0 <= j0 < t1.len() && #[trigger] t1[j0] == x;
                        assert(j0 < i);
                        assert(vs.take(i as int)[j0] == x);
                        assert(vs.take(i as int).contains(x));
                        assert(os.contains(x));
                        let j = choose|j: int| 0 <= j < os.len() && os[j] == x;
                        if j < k {
                            assert(ns[j] == x);
                        } else {
                            assert(ns[j + 1] == x);
                        }
                    }
                }
            }
        }
        i += 1;
    }
    assert(vs.take(i as int) == vs);
    out
}

/// The kind a custom field's row takes, from its distinct values.
pub fn custom_field_kind(values: &Vec<String>) -> (r: TaskFieldFilterKind)
    ensures
        r == kind_for(texts(values@)),
{
    let n = values.len();
    if n == 0 || n > MAX_LABEL_VALUES {
        return TaskFieldFilterKind::String;
    }
    let mut i: usize = 0;
    while i < n
        invariant
            i <= n == values.len(),
            forall|k: int| 0 <= k < i ==> label_like(#[trigger] texts(values@)[k]),
        decreases n - i,
    {
        if !fits_label(&chars_of(values[i].as_str())) {
            assert(!label_like(texts(values@)[i as int]));
            return TaskFieldFilterKind::String;
        }
        i += 1;
    }
    TaskFieldFilterKind::Labels
}

/// Whether a row is the one a custom field gets: keyed `custom:` and its
/// name, labelled with the name, filtering on the ids that carry it, able to
/// be empty, empty and in `contains` mode, and offering the distinct values
/// seen, in increasing order, as labels when they read as labels.
pub open spec fn is_custom_row(f: FieldView, name: Seq<char>, gids: Seq<Seq<char>>, seen: Seq<Seq<char>>) -> bool {
    &&& f.key == seq!['c', 'u', 's', 't', 'o', 'm', ':'] + name
    &&& f.label == name
    &&& f.custom_gids == gids
    &&& f.can_be_empty
    &&& !f.completes
    &&& f.value == (Seq::<char>::empty(), 0int)
    &&& f.string_mode == TaskFieldStringMode::Substring
    &&& f.default_string_mode == TaskFieldStringMode::Substring
    &&& f.label_values.len() == 0
    &&& f.label_cursor == 0
    &&& !f.empty_required
    &&& !f.negated
    &&& exists|values: Seq<Seq<char>>| {
        &&& strictly_sorted(values)
        &&& (forall|x: Seq<char>| #[trigger] values.contains(x) <==> seen.contains(x))
        &&& f.kind == kind_for(values)
        &&& f.label_options == if kind_for(values) == TaskFieldFilterKind::Labels { values } else { Seq::empty() }
    }
}

/// The row for a custom field: keyed `custom:` and its name, so a saved
/// value survives a reload that brings other ids for it, filtering on every
/// id that carries the name, and offering the distinct values seen, in
/// increasing order, as labels when they read as labels.
pub fn custom_field_row(name: &str, gids: Vec<String>, seen: &Vec<String>) -> (r: TaskFilterFieldState)
    ensures
        is_custom_row(r@, name@, texts(gids@), texts(seen@)),
{
    let values = sorted_distinct(seen);
    let ghost vs = texts(values@);
    let kind = custom_field_kind(&values);
    let prefix: Vec<char> = vec!['c', 'u', 's', 't', 'o', 'm', ':'];
    let key = string_from_chars(&concat_chars(&prefix, &chars_of(name)));
    let options = if kind == TaskFieldFilterKind::Labels { values } else { Vec::new() };
    assert(kind == TaskFieldFilterKind::String ==> texts(options@) =~= Seq::<Seq<char>>::empty());
    let r = TaskFilterFieldState::new(
        TaskFilterFieldSpec {
            key,
            label: name.to_string(),
            kind,
            custom_gids: gids,
            can_be_empty: true,
            completes: false,
        },
        TaskFieldStringMode::Substring,
        options,
    );
    assert(texts(r.label_values@) =~= Seq::<Seq<char>>::empty());
    assert(strictly_sorted(vs) && (forall|x: Seq<char>| #[trigger] vs.contains(x) <==> texts(seen@).contains(x))
        && r@.kind == kind_for(vs));
    r
}


/// A row with nothing in it yet.
pub open spec fn fresh_row(
    key: Seq<char>,
    label: Seq<char>,
    kind: TaskFieldFilterKind,
    can_be_empty: bool,
    completes: bool,
    mode: TaskFieldStringMode,
    options: Seq<Seq<char>>,
) -> FieldView {
    FieldView {
        key,
        label,
        kind,
        custom_gids: Seq::empty(),
        can_be_empty,
        completes,
        value: (Seq::empty(), 0),
        string_mode: mode,
        label_values: Seq::empty(),
        label_options: options,
        label_cursor: 0,
        empty_required: false,
        negated: false,
        default_string_mode: mode,
    }
}

/// The rows every panel has, for the task's own fields: the title and the
/// assignee, matched fuzzily (a name typed from memory is the field most
/// likely to be half-remembered), the assignee completing over people; the
/// due and start dates; the state, open or done, which is never empty; and
/// the projects.
pub open spec fn standard_rows() -> Seq<FieldView> {
    seq![
        fresh_row("title"@, "Title"@, TaskFieldFilterKind::String, true, false, TaskFieldStringMode::Fuzzy, Seq::empty()),
        fresh_row("assignee"@, "Assignee"@, TaskFieldFilterKind::String, true, true, TaskFieldStringMode::Fuzzy, Seq::empty()),
        fresh_row("due"@, "Due"@, TaskFieldFilterKind::Date, true, false, TaskFieldStringMode::Substring, Seq::empty()),
        fresh_row("start"@, "Start"@, TaskFieldFilterKind::Date, true, false, TaskFieldStringMode::Substring, Seq::empty()),
        fresh_row("state"@, "State"@, TaskFieldFilterKind::Labels, false, false, TaskFieldStringMode::Substring, seq!["open"@, "done"@]),
        fresh_row("projects"@, "Projects"@, TaskFieldFilterKind::String, true, false, TaskFieldStringMode::Substring, Seq::empty()),
    ]
}

/// One row with nothing in it yet.
fn plain_row(
    key: &str,
    label: &str,
    kind: TaskFieldFilterKind,
    can_be_empty: bool,
    completes: bool,
    mode: TaskFieldStringMode,
    options: Vec<String>,
) -> (r: TaskFilterFieldState)
    ensures
        r@ == fresh_row(key@, label@, kind, can_be_empty, completes, mode, texts(options@)),
{
    let r = TaskFilterFieldState::new(
        TaskFilterFieldSpec {
            key: key.to_string(),
            label: label.to_string(),
            kind,
            custom_gids: Vec::new(),
            can_be_empty,
            completes,
        },
        mode,
        options,
    );
    assert(texts(r.spec.custom_gids@) =~= Seq::<Seq<char>>::empty());
    assert(texts(r.label_values@) =~= Seq::<Seq<char>>::empty());
    r
}

/// The rows every panel has, for the task's own fields.
pub fn standard_fields() -> (r: Vec<TaskFilterFieldState>)
    ensures
        fields_view(r@) == standard_rows(),
{
    let mut out: Vec<TaskFilterFieldState> = Vec::new();
    out.push(plain_row("title", "Title", TaskFieldFilterKind::String, true, false, TaskFieldStringMode::Fuzzy, Vec::new()));
    out.push(plain_row("assignee", "Assignee", TaskFieldFilterKind::String, true, true, TaskFieldStringMode::Fuzzy, Vec::new()));
    out.push(plain_row("due", "Due", TaskFieldFilterKind::Date, true, false, TaskFieldStringMode::Substring, Vec::new()));
    out.push(plain_row("start", "Start", TaskFieldFilterKind::Date, true, false, TaskFieldStringMode::Substring, Vec::new()));
    let mut states: Vec<String> = Vec::new();
    states.push("open".to_string());
    states.push("done".to_string());
    assert(texts(states@) =~= seq!["open"@, "done"@]);
    out.push(plain_row("state", "State", TaskFieldFilterKind::Labels, false, false, TaskFieldStringMode::Substring, states));
    out.push(plain_row("projects", "Projects", TaskFieldFilterKind::String, true, false, TaskFieldStringMode::Substring, Vec::new()));
    assert(texts(Seq::<String>::empty()) =~= Seq::<Seq<char>>::empty());
    assert(fields_view(out@).len() == 6);
    assert forall|k: int| 0 <= k < 6 implies fields_view(out@)[k] == #[trigger] standard_rows()[k] by {
        assert(fields_view(out@)[k] == out@[k]@);
    }
    assert(fields_view(out@) =~= standard_rows());
    out
}


/// A custom field as the panel is built from it: its name, the ids that
/// carry that name, and the values seen for it.
#[derive(Debug)]
pub struct CustomFieldValues {
    pub name: String,
    pub gids: Vec<String>,
    pub values: Vec<String>,
}

impl crate::filter_panel::TaskFilterEditorState {
    /// A panel of one set: the task's own rows, then one row per group of
    /// custom fields, in the order given.
    fn from_custom_fields(custom: &Vec<CustomFieldValues>) -> (r: Self)
        ensures
            ({
                let rows = r@.sets[0].fields;
                &&& r@ == Self::from_fields_view(rows)
                &&& rows.len() == standard_rows().len() + custom@.len()
                &&& rows.take(standard_rows().len() as int) == standard_rows()
                &&& forall|i: int| 0 <= i < custom@.len() ==> is_custom_row(
                    #[trigger] rows[standard_rows().len() + i],
                    custom@[i].name@,
                    texts(custom@[i].gids@),
                    texts(custom@[i].values@),
                )
            }),
    {
        let mut fields = standard_fields();
        let ghost base = fields_view(fields@);
        assert(fields@.len() == fields_view(fields@).len());
        assert(standard_rows().len() == 6);
        assert(fields_view(fields@).take(6) =~= base);
        let mut i: usize = 0;
        while i < custom.len()
            invariant
                i <= custom.len(),
                base == standard_rows(),
                fields@.len() == 6 + i,
                fields_view(fields@).take(6) == base,
                forall|k: int| 0 <= k < i ==> is_custom_row(
                    #[trigger] fields_view(fields@)[6 + k],
                    custom@[k].name@,
                    texts(custom@[k].gids@),
                    texts(custom@[k].values@),
                ),
            decreases custom.len() - i,
        {
            let c = &custom[i];
            let row = custom_field_row(c.name.as_str(), c.gids.clone(), &c.values);
            let ghost before = fields_view(fields@);
            fields.push(row);
            assert(fields_view(fields@) =~= before.push(row@));
            assert(fields_view(fields@).take(6) =~= before.take(6));
            i += 1;
        }
        let r = Self::from_fields(fields);
        r
    }
}

impl crate::filter_panel::TaskFilterEditorState {
    /// The panel for a loaded dataset: one set holding the task's own rows,
    /// then one `custom:` row per distinct custom-field name, in the order
    /// the names first come among the definitions, filtering on every id
    /// that carries the name and offering the values the records hold.
    pub fn from_dataset(dataset: &TaskDataset) -> (r: Self)
        ensures
            ({
                let groups = name_groups(defs_view(dataset.custom_field_definitions@));
                let defs = defs_view(dataset.custom_field_definitions@);
                let rows = r@.sets[0].fields;
                let n = standard_rows().len();
                &&& r@ == Self::from_fields_view(rows)
                &&& rows.len() == n + groups.len()
                &&& rows.take(n as int) == standard_rows()
                &&& forall|i: int| 0 <= i < groups.len() ==> is_custom_row(
                    #[trigger] rows[n + i],
                    groups[i].0,
                    groups[i].1,
                    values_across(groups[i].1, record_list(dataset.records@)),
                )
                &&& forall|i: int, j: int| 0 <= i < j < groups.len()
                    ==> (#[trigger] rows[n + i]).key != (#[trigger] rows[n + j]).key
                &&& forall|d: int| 0 <= d < defs.len() ==> exists|i: int| 0 <= i < groups.len()
                    && (#[trigger] rows[n + i]).label == (#[trigger] defs[d]).1
                    && rows[n + i].custom_gids.contains(defs[d].0)
            }),
    {
        let custom = group_custom_fields(dataset);
        let r = Self::from_custom_fields(&custom);
        proof {
            let defs = defs_view(dataset.custom_field_definitions@);
            let groups = name_groups(defs);
            lemma_groups_by_distinct_names(defs);
            let rows = r@.sets[0].fields;
            assert(standard_rows().len() == 6);
            assert forall|i: int| 0 <= i < groups.len() implies is_custom_row(
                #[trigger] rows[6 + i], groups[i].0, groups[i].1,
                values_across(groups[i].1, record_list(dataset.records@))) by {
                assert(groups_view(custom@)[i] == (custom@[i].name@, texts(custom@[i].gids@)));
                assert(is_custom_row(rows[6 + i], custom@[i].name@, texts(custom@[i].gids@), texts(custom@[i].values@)));
            };
            let prefix = seq!['c', 'u', 's', 't', 'o', 'm', ':'];
            assert forall|i: int, j: int| 0 <= i < j < groups.len()
                implies (#[trigger] rows[6 + i]).key != (#[trigger] rows[6 + j]).key by {
                assert(is_custom_row(rows[6 + i], groups[i].0, groups[i].1, values_across(groups[i].1, record_list(dataset.records@))));
                assert(is_custom_row(rows[6 + j], groups[j].0, groups[j].1, values_across(groups[j].1, record_list(dataset.records@))));
                assert(groups[i].0 != groups[j].0);
                if rows[6 + i].key == rows[6 + j].key {
                    assert((prefix + groups[i].0).skip(7) =~= groups[i].0);
                    assert((prefix + groups[j].0).skip(7) =~= groups[j].0);
                }
            };
            assert forall|d: int| 0 <= d < defs.len() implies exists|i: int| 0 <= i < groups.len()
                && (#[trigger] rows[6 + i]).label == (#[trigger] defs[d]).1
                && rows[6 + i].custom_gids.contains(defs[d].0) by {
                let k = choose|k: int| 0 <= k < groups.len() && (#[trigger] groups[k]).0 == defs[d].1
                    && groups[k].1.contains(defs[d].0);
                assert(is_custom_row(rows[6 + k], groups[k].0, groups[k].1, values_across(groups[k].1, record_list(dataset.records@))));
            };
        }
        r
    }
}

} // verus!
