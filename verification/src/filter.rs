//! The task filter: rows that each test one field of a task, sets of rows
//! that must all pass, and sets that are tried in turn until one passes.

use vstd::prelude::*;
use crate::date::{CivilDate, ordinal};
use crate::date_query::{DateQuery, query_admits, query_is, query_of};
use crate::matching::{fuzzy_match, is_subsequence, regex_compile_error, regex_error, regex_is_match, regex_match, substring_match};
use crate::text::{chars_of, contains_seq, lower, lower_chars, string_from_chars, trim, trim_chars};
use crate::text_edit::TextEdit;

verus! {

/// What kind of value a filter row tests.
#[derive(Clone, Copy, Debug, PartialEq, Eq, Structural)]
pub enum TaskFieldFilterKind {
    String,
    Labels,
    Date,
}

/// How a text row matches.
#[derive(Clone, Copy, Debug, PartialEq, Eq, Structural)]
pub enum TaskFieldStringMode {
    Fuzzy,
    Substring,
    Regex,
    /// Names picked from a directory, matched exactly.
    List,
}

/// The saved spelling of a match mode.
pub open spec fn mode_name(mode: TaskFieldStringMode) -> Seq<char> {
    match mode {
        TaskFieldStringMode::Fuzzy => "fuzzy"@,
        TaskFieldStringMode::Substring => "contains"@,
        TaskFieldStringMode::Regex => "regex"@,
        TaskFieldStringMode::List => "list"@,
    }
}

/// The saved spelling of a match mode.
pub fn string_mode_name(mode: TaskFieldStringMode) -> (r: &'static str)
    ensures
        r@ == mode_name(mode),
{
    match mode {
        TaskFieldStringMode::Fuzzy => "fuzzy",
        TaskFieldStringMode::Substring => "contains",
        TaskFieldStringMode::Regex => "regex",
        TaskFieldStringMode::List => "list",
    }
}

/// The mode a saved spelling names, if any.
pub open spec fn mode_named(name: Seq<char>) -> Option<TaskFieldStringMode> {
    if name == "fuzzy"@ {
        Some(TaskFieldStringMode::Fuzzy)
    } else if name == "contains"@ {
        Some(TaskFieldStringMode::Substring)
    } else if name == "regex"@ {
        Some(TaskFieldStringMode::Regex)
    } else if name == "list"@ {
        Some(TaskFieldStringMode::List)
    } else {
        None
    }
}

/// Reads a saved match mode, or `None` when the text names no mode.
pub fn parse_string_mode(name: &str) -> (r: Option<TaskFieldStringMode>)
    ensures
        r == mode_named(name@),
{
    let c = chars_of(name);
    if crate::text::is_word(&c, "fuzzy") {
        Some(TaskFieldStringMode::Fuzzy)
    } else if crate::text::is_word(&c, "contains") {
        Some(TaskFieldStringMode::Substring)
    } else if crate::text::is_word(&c, "regex") {
        Some(TaskFieldStringMode::Regex)
    } else if crate::text::is_word(&c, "list") {
        Some(TaskFieldStringMode::List)
    } else {
        None
    }
}

/// Spelling the mode and reading the spelling back gives the same mode.
pub proof fn lemma_mode_name_round_trip(mode: TaskFieldStringMode)
    ensures
        mode_named(mode_name(mode)) == Some(mode),
{
    reveal_strlit("fuzzy");
    reveal_strlit("contains");
    reveal_strlit("regex");
    reveal_strlit("list");
    assert("fuzzy"@.len() != "contains"@.len());
    assert("fuzzy"@[0] != "regex"@[0]);
    assert("contains"@.len() != "regex"@.len());
    assert("regex"@.len() != "list"@.len());
    assert("fuzzy"@.len() != "list"@.len());
    assert("contains"@.len() != "list"@.len());
}

/// The characters of each string.
pub open spec fn texts(v: Seq<String>) -> Seq<Seq<char>> {
    v.map_values(|s: String| s@)
}

/// How a chosen label reads: `None` when blank, otherwise whether it is
/// required (`true`) or excluded (a leading `!` or `-`), and the value in
/// lower case.
pub open spec fn token_class(t: Seq<char>) -> Option<(bool, Seq<char>)> {
    let s = trim(t);
    if s.len() == 0 {
        None
    } else if s[0] == '!' || s[0] == '-' {
        Some((false, lower(s.drop_first())))
    } else {
        Some((true, lower(s)))
    }
}

/// The values of the chosen labels that are required (or excluded), in order.
pub open spec fn tokens_of(ts: Seq<Seq<char>>, required: bool) -> Seq<Seq<char>>
    decreases ts.len(),
{
    if ts.len() == 0 {
        Seq::empty()
    } else {
        let rest = tokens_of(ts.drop_last(), required);
        match token_class(ts.last()) {
            Some((r, v)) => if r == required { rest.push(v) } else { rest },
            None => rest,
        }
    }
}

/// Splits chosen labels into those a task must carry and those it must not,
/// lower-cased; a leading `!` or `-` excludes.
pub fn split_label_tokens(selected_labels: &[String]) -> (r: (Vec<String>, Vec<String>))
    ensures
        texts(r.0@) == tokens_of(texts(selected_labels@), true),
        texts(r.1@) == tokens_of(texts(selected_labels@), false),
{
    let ghost ts = texts(selected_labels@);
    let mut includes: Vec<String> = Vec::new();
    let mut excludes: Vec<String> = Vec::new();
    let mut i: usize = 0;
    while i < selected_labels.len()
        invariant
            i <= selected_labels.len(),
            ts == texts(selected_labels@),
            texts(includes@) == tokens_of(ts.take(i as int), true),
            texts(excludes@) == tokens_of(ts.take(i as int), false),
        decreases selected_labels.len() - i,
    {
        assert(ts.take(i as int + 1).drop_last() == ts.take(i as int));
        assert(ts.take(i as int + 1).last() == ts[i as int]);
        let token = trim_chars(&chars_of(selected_labels[i].as_str()));
        if token.len() > 0 {
            let ghost inc0 = includes@;
            let ghost exc0 = excludes@;
            if token[0] == '!' || token[0] == '-' {
                let rest = crate::text::slice_chars(&token, 1, token.len());
                assert(rest@ == token@.drop_first());
                excludes.push(string_from_chars(&lower_chars(&rest)));
                assert(texts(excludes@) == texts(exc0).push(lower(token@.drop_first())));
            } else {
                includes.push(string_from_chars(&lower_chars(&token)));
                assert(texts(includes@) == texts(inc0).push(lower(token@)));
            }
        }
        i += 1;
    }
    assert(ts.take(i as int) == ts);
    (includes, excludes)
}

/// Whether some needle equals some value, ignoring ASCII case on the values.
pub open spec fn shares(needles: Seq<Seq<char>>, values: Seq<Seq<char>>) -> bool {
    exists|i: int, j: int| 0 <= i < needles.len() && 0 <= j < values.len() && needles[i] == lower(values[j])
}

/// Whether a task's label values satisfy a split selection: one of the
/// required values when any are required, and none of the excluded ones.
pub open spec fn labels_match(values: Seq<Seq<char>>, includes: Seq<Seq<char>>, excludes: Seq<Seq<char>>) -> bool {
    if includes.len() == 0 && excludes.len() == 0 {
        true
    } else {
        (includes.len() == 0 || shares(includes, values)) && !shares(excludes, values)
    }
}

/// Whether any needle equals any of the lower-cased values.
fn any_shared(needles: &[String], lowered: &Vec<String>, values: Ghost<Seq<Seq<char>>>) -> (r: bool)
    requires
        texts(lowered@) == values@.map_values(|v: Seq<char>| lower(v)),
        lowered@.len() == values@.len(),
    ensures
        r == shares(texts(needles@), values@),
{
    let mut i: usize = 0;
    while i < needles.len()
        invariant
            i <= needles.len(),
            texts(lowered@) == values@.map_values(|v: Seq<char>| lower(v)),
            lowered@.len() == values@.len(),
            forall|a: int, b: int| 0 <= a < i && 0 <= b < values@.len() ==> needles@[a]@ != lower(values@[b]),
        decreases needles.len() - i,
    {
        let mut j: usize = 0;
        while j < lowered.len()
            invariant
                i < needles.len(),
                j <= lowered.len(),
                texts(lowered@) == values@.map_values(|v: Seq<char>| lower(v)),
                lowered@.len() == values@.len(),
                forall|b: int| 0 <= b < j ==> needles@[i as int]@ != lower(values@[b]),
            decreases lowered.len() - j,
        {
            assert(texts(lowered@)[j as int] == lowered@[j as int]@);
            assert(lowered@[j as int]@ == lower(values@[j as int]));
            if needles[i] == lowered[j] {
                assert(texts(needles@)[i as int] == lower(values@[j as int]));
                return true;
            }
            j += 1;
        }
        i += 1;
    }
    proof {
        if shares(texts(needles@), values@) {
            let (a, b) = choose|a: int, b: int| 0 <= a < texts(needles@).len() && 0 <= b < values@.len()
                && texts(needles@)[a] == lower(values@[b]);
            assert(needles@[a]@ != lower(values@[b]));
        }
    }
    false
}

/// Whether a task's label values satisfy an already-split selection.
pub fn label_selection_matches(values: &[String], includes: &[String], excludes: &[String]) -> (r: bool)
    ensures
        r == labels_match(texts(values@), texts(includes@), texts(excludes@)),
{
    if includes.len() == 0 && excludes.len() == 0 {
        return true;
    }
    let ghost vs = texts(values@);
    let mut lowered: Vec<String> = Vec::new();
    let mut i: usize = 0;
    while i < values.len()
        invariant
            i <= values.len(),
            vs == texts(values@),
            texts(lowered@) == vs.take(i as int).map_values(|v: Seq<char>| lower(v)),
        decreases values.len() - i,
    {
        let ghost before = lowered@;
        lowered.push(string_from_chars(&lower_chars(&chars_of(values[i].as_str()))));
        assert(texts(lowered@) == texts(before).push(lower(vs[i as int])));
        assert(vs.take(i as int + 1).map_values(|v: Seq<char>| lower(v))
            == vs.take(i as int).map_values(|v: Seq<char>| lower(v)).push(lower(vs[i as int])));
        i += 1;
    }
    assert(vs.take(i as int) == vs);
    assert(texts(lowered@).len() == lowered@.len());
    if includes.len() > 0 && !any_shared(includes, &lowered, Ghost(vs)) {
        return false;
    }
    !any_shared(excludes, &lowered, Ghost(vs))
}

/// Whether a character separates label values.
pub open spec fn is_label_sep(c: char) -> bool {
    c == ',' || c == '|'
}

/// The pieces of `s` between separators, the last one possibly empty.
pub open spec fn pieces(s: Seq<char>) -> Seq<Seq<char>>
    decreases s.len(),
{
    if s.len() == 0 {
        seq![Seq::empty()]
    } else {
        let init = pieces(s.drop_last());
        if is_label_sep(s.last()) {
            init.push(Seq::empty())
        } else {
            init.update(init.len() - 1, init.last().push(s.last()))
        }
    }
}

/// The non-blank pieces, trimmed, in order.
pub open spec fn kept_pieces(ps: Seq<Seq<char>>) -> Seq<Seq<char>>
    decreases ps.len(),
{
    if ps.len() == 0 {
        Seq::empty()
    } else {
        let rest = kept_pieces(ps.drop_last());
        if trim(ps.last()).len() > 0 { rest.push(trim(ps.last())) } else { rest }
    }
}

/// The label values a query lists: split at `,` or `|`, trimmed, blanks
/// dropped.
pub open spec fn label_values_of(query: Seq<char>) -> Seq<Seq<char>> {
    kept_pieces(pieces(query))
}

proof fn lemma_pieces_nonempty(s: Seq<char>)
    ensures
        pieces(s).len() >= 1,
    decreases s.len(),
{
    if s.len() > 0 {
        lemma_pieces_nonempty(s.drop_last());
    }
}

/// Reads the label values a query lists.
pub fn parse_label_values(query: &str) -> (r: Vec<String>)
    ensures
        texts(r@) == label_values_of(query@),
{
    let q = chars_of(query);
    let mut out: Vec<String> = Vec::new();
    let mut current: Vec<char> = Vec::new();
    let mut i: usize = 0;
    proof { lemma_pieces_nonempty(q@.take(0)); }
    assert(q@.take(0) == Seq::<char>::empty());
    while i < q.len()
        invariant
            i <= q.len(),
            q@ == query@,
            pieces(q@.take(i as int)).len() >= 1,
            current@ == pieces(q@.take(i as int)).last(),
            texts(out@) == kept_pieces(pieces(q@.take(i as int)).drop_last()),
        decreases q.len() - i,
    {
        let ghost ps = pieces(q@.take(i as int));
        assert(q@.take(i as int + 1).drop_last() == q@.take(i as int));
        assert(q@.take(i as int + 1).last() == q@[i as int]);
        if q[i] == ',' || q[i] == '|' {
            let piece = trim_chars(&current);
            let ghost out0 = out@;
            if piece.len() > 0 {
                out.push(string_from_chars(&piece));
                assert(texts(out@) == texts(out0).push(trim(ps.last())));
            }
            assert(pieces(q@.take(i as int + 1)) == ps.push(Seq::empty()));
            assert(pieces(q@.take(i as int + 1)).drop_last() == ps);
            assert(ps.drop_last().push(ps.last()) == ps);
            current = Vec::new();
        } else {
            current.push(q[i]);
            assert(pieces(q@.take(i as int + 1)).drop_last() == ps.drop_last());
        }
        i += 1;
    }
    assert(q@.take(i as int) == q@);
    let ghost ps = pieces(q@);
    let piece = trim_chars(&current);
    if piece.len() > 0 {
        let ghost out0 = out@;
        out.push(string_from_chars(&piece));
        assert(texts(out@) == texts(out0).push(trim(ps.last())));
    }
    assert(ps.drop_last().push(ps.last()) == ps);
    out
}

/// The name to show for a picked person: `me` is looked up in the directory
/// of ids and names, everything else shows as it is.
pub open spec fn display_name(handle: Seq<char>, display: Seq<char>, directory: Seq<(Seq<char>, Seq<char>)>) -> Seq<char> {
    if display != "me"@ {
        display
    } else if exists|i: int| 0 <= i < directory.len() && directory[i].0 == handle {
        directory[first_entry(directory, handle, 0)].1
    } else {
        display
    }
}

/// The first directory entry at or after `i` for an id.
pub open spec fn first_entry(directory: Seq<(Seq<char>, Seq<char>)>, handle: Seq<char>, i: int) -> int
    decreases directory.len() - i,
{
    if i < 0 || i >= directory.len() {
        -1
    } else if directory[i].0 == handle {
        i
    } else {
        first_entry(directory, handle, i + 1)
    }
}

/// A directory as plain values.
pub open spec fn directory_view(d: Seq<(String, String)>) -> Seq<(Seq<char>, Seq<char>)> {
    d.map_values(|e: (String, String)| (e.0@, e.1@))
}

proof fn lemma_first_entry(directory: Seq<(Seq<char>, Seq<char>)>, handle: Seq<char>, i: int)
    requires
        0 <= i <= directory.len(),
    ensures
        first_entry(directory, handle, i) == -1 <==> forall|j: int| i <= j < directory.len() ==> directory[j].0 != handle,
        first_entry(directory, handle, i) >= 0 ==> i <= first_entry(directory, handle, i) < directory.len()
            && directory[first_entry(directory, handle, i)].0 == handle,
    decreases directory.len() - i,
{
    if i < directory.len() && directory[i].0 != handle {
        lemma_first_entry(directory, handle, i + 1);
    }
}

/// The name to show for a picked person.
pub fn display_for(handle: &str, display: &str, directory: &[(String, String)]) -> (r: String)
    ensures
        r@ == display_name(handle@, display@, directory_view(directory@)),
{
    proof { reveal_strlit("me"); }
    let d = chars_of(display);
    if !crate::text::is_word(&d, "me") {
        return display.to_string();
    }
    let ghost dv = directory_view(directory@);
    proof { lemma_first_entry(dv, handle@, 0); }
    let h = handle.to_string();
    let mut i: usize = 0;
    while i < directory.len()
        invariant
            i <= directory.len(),
            dv == directory_view(directory@),
            h@ == handle@,
            display@ == "me"@,
            first_entry(dv, handle@, 0) == first_entry(dv, handle@, i as int),
        decreases directory.len() - i,
    {
        if directory[i].0 == h {
            assert(dv[i as int].0 == handle@);
            assert(first_entry(dv, handle@, i as int) == i);
            assert(dv[i as int].1 == directory@[i as int].1@);
            assert(display@ == "me"@);
            assert(exists|k: int| 0 <= k < dv.len() && dv[k].0 == handle@);
            let name = directory[i].1.clone();
            assert(name@ == dv[first_entry(dv, handle@, 0)].1);
            return name;
        }
        i += 1;
    }
    proof { lemma_first_entry(dv, handle@, i as int); }
    display.to_string()
}

/// What a filter row is: the field it tests, how it is labelled, what kind
/// of value it reads, and what it may ask for.
#[derive(Debug)]
pub struct TaskFilterFieldSpec {
    pub key: String,
    pub label: String,
    pub kind: TaskFieldFilterKind,
    /// Every custom-field id the row filters on.
    pub custom_gids: Vec<String>,
    /// Whether "has no value" is a state the field can be in.
    pub can_be_empty: bool,
    /// Whether the row's values come from a directory it completes over.
    pub completes: bool,
}

/// One filter row and what the user put in it.
#[derive(Debug)]
pub struct TaskFilterFieldState {
    pub spec: TaskFilterFieldSpec,
    /// The typed value, with its caret.
    pub value: TextEdit,
    pub string_mode: TaskFieldStringMode,
    pub label_values: Vec<String>,
    pub label_options: Vec<String>,
    pub label_cursor: usize,
    /// Match only tasks with no value in this field.
    pub empty_required: bool,
    /// Keep what the row would have thrown away.
    pub negated: bool,
    /// The mode the row was built with.
    pub default_string_mode: TaskFieldStringMode,
}

/// A filter row as plain values.
pub struct FieldView {
    pub key: Seq<char>,
    pub label: Seq<char>,
    pub kind: TaskFieldFilterKind,
    pub custom_gids: Seq<Seq<char>>,
    pub can_be_empty: bool,
    pub completes: bool,
    pub value: (Seq<char>, int),
    pub string_mode: TaskFieldStringMode,
    pub label_values: Seq<Seq<char>>,
    pub label_options: Seq<Seq<char>>,
    pub label_cursor: int,
    pub empty_required: bool,
    pub negated: bool,
    pub default_string_mode: TaskFieldStringMode,
}

impl View for TaskFilterFieldState {
    type V = FieldView;

    open spec fn view(&self) -> FieldView {
        FieldView {
            key: self.spec.key@,
            label: self.spec.label@,
            kind: self.spec.kind,
            custom_gids: texts(self.spec.custom_gids@),
            can_be_empty: self.spec.can_be_empty,
            completes: self.spec.completes,
            value: self.value@,
            string_mode: self.string_mode,
            label_values: texts(self.label_values@),
            label_options: texts(self.label_options@),
            label_cursor: self.label_cursor as int,
            empty_required: self.empty_required,
            negated: self.negated,
            default_string_mode: self.default_string_mode,
        }
    }
}

/// Whether a row excludes anything: it asks for no value, or holds text.
pub open spec fn row_active(f: FieldView) -> bool {
    f.empty_required || trim(f.value.0).len() > 0
}

impl TaskFilterFieldState {
    /// Whether this row excludes anything.
    pub fn is_active(&self) -> (r: bool)
        ensures
            r == row_active(self@),
    {
        self.empty_required || trim_chars(self.value.chars()).len() > 0
    }
}

/// What a task holds in the field one row reads: its text, its label
/// values, its date, and who it is assigned to.
#[derive(Debug)]
pub struct FieldReading {
    pub text: String,
    pub labels: Vec<String>,
    pub date: Option<CivilDate>,
    pub assignee_gid: Option<String>,
}

/// A field reading as plain values.
pub struct ReadingView {
    pub text: Seq<char>,
    pub labels: Seq<Seq<char>>,
    pub date: Option<int>,
    pub assignee_gid: Option<Seq<char>>,
}

impl View for FieldReading {
    type V = ReadingView;

    open spec fn view(&self) -> ReadingView {
        ReadingView {
            text: self.text@,
            labels: texts(self.labels@),
            date: match self.date {
                Some(d) => Some(ordinal(d@)),
                None => None,
            },
            assignee_gid: match self.assignee_gid {
                Some(g) => Some(g@),
                None => None,
            },
        }
    }
}

/// Whether a task has nothing at all in the field.
pub open spec fn value_empty(kind: TaskFieldFilterKind, r: ReadingView) -> bool {
    match kind {
        TaskFieldFilterKind::String => trim(r.text).len() == 0,
        TaskFieldFilterKind::Labels => forall|i: int| 0 <= i < r.labels.len() ==> trim(#[trigger] r.labels[i]).len() == 0,
        TaskFieldFilterKind::Date => r.date is None,
    }
}

/// A row's test, with everything that does not depend on the task done.
#[derive(Debug)]
pub enum PreparedMatcher {
    /// The row asks for no value at all.
    Empty,
    /// The lower-cased needle of a subsequence match.
    Fuzzy(String),
    /// The lower-cased needle of a containment test.
    Substring(String),
    /// The pattern, and whether it builds.
    Regex { pattern: String, builds: bool },
    /// The required and excluded label values, lower-cased.
    Labels { includes: Vec<String>, excludes: Vec<String> },
    /// The picked names, lower-cased, and who `me` is when it was picked.
    Picked { names: Vec<String>, me: Option<String> },
    /// The parsed query, or `None` when the text is not a date expression.
    Date(Option<DateQuery>),
}

/// A row's test as plain values; a date query by what it admits.
pub enum MatcherView {
    Empty,
    Fuzzy(Seq<char>),
    Substring(Seq<char>),
    Regex { pattern: Seq<char>, builds: bool },
    Labels { includes: Seq<Seq<char>>, excludes: Seq<Seq<char>> },
    Picked { names: Seq<Seq<char>>, me: Option<Seq<char>> },
    Date(Option<(int, int, bool, bool, bool)>),
}

/// Whether a prepared matcher is the one its view describes.
pub open spec fn matcher_is(m: PreparedMatcher, v: MatcherView) -> bool {
    match (m, v) {
        (PreparedMatcher::Empty, MatcherView::Empty) => true,
        (PreparedMatcher::Fuzzy(n), MatcherView::Fuzzy(w)) => n@ == w,
        (PreparedMatcher::Substring(n), MatcherView::Substring(w)) => n@ == w,
        (PreparedMatcher::Regex { pattern, builds }, MatcherView::Regex { pattern: p, builds: b }) =>
            pattern@ == p && builds == b && (b <==> regex_compile_error(p) is None),
        (PreparedMatcher::Labels { includes, excludes }, MatcherView::Labels { includes: i, excludes: e }) =>
            texts(includes@) == i && texts(excludes@) == e,
        (PreparedMatcher::Picked { names, me }, MatcherView::Picked { names: n, me: m }) =>
            texts(names@) == n && match (me, m) {
                (Some(a), Some(b)) => a@ == b,
                (None, None) => true,
                _ => false,
            },
        (PreparedMatcher::Date(q), MatcherView::Date(t)) => query_is(q, t),
        _ => false,
    }
}

/// Whether a name is `me`, ignoring ASCII case.
pub open spec fn is_me(name: Seq<char>) -> bool {
    lower(name) == "me"@
}

/// The picked names that are not `me`, lower-cased, in order.
pub open spec fn named(picked: Seq<Seq<char>>) -> Seq<Seq<char>>
    decreases picked.len(),
{
    if picked.len() == 0 {
        Seq::empty()
    } else {
        let rest = named(picked.drop_last());
        if is_me(picked.last()) { rest } else { rest.push(lower(picked.last())) }
    }
}

/// The test a row makes, prepared: `me` stands for the user logged in, or
/// for no one when nobody is.
pub open spec fn matcher_of(f: FieldView, today: (int, int, int), me: Option<Seq<char>>) -> MatcherView {
    if f.empty_required {
        MatcherView::Empty
    } else {
        match f.kind {
            TaskFieldFilterKind::String => match f.string_mode {
                TaskFieldStringMode::List => {
                    let picked = label_values_of(f.value.0);
                    MatcherView::Picked {
                        names: named(picked),
                        me: if exists|i: int| 0 <= i < picked.len() && is_me(#[trigger] picked[i]) {
                            Some(match me { Some(g) => g, None => Seq::empty() })
                        } else {
                            None
                        },
                    }
                },
                TaskFieldStringMode::Fuzzy => MatcherView::Fuzzy(lower(f.value.0)),
                TaskFieldStringMode::Substring => MatcherView::Substring(lower(f.value.0)),
                TaskFieldStringMode::Regex => MatcherView::Regex {
                    pattern: f.value.0,
                    builds: regex_compile_error(f.value.0) is None,
                },
            },
            TaskFieldFilterKind::Labels => MatcherView::Labels {
                includes: tokens_of(f.label_values, true),
                excludes: tokens_of(f.label_values, false),
            },
            TaskFieldFilterKind::Date => MatcherView::Date(query_of(f.value.0, today)),
        }
    }
}

/// Folding a string to lower case twice is folding it once.
pub proof fn lemma_lower_idempotent(s: Seq<char>)
    ensures
        lower(lower(s)) == lower(s),
{
    assert(lower(lower(s)) =~= lower(s));
}

/// A contains, fuzzy or pattern row ignores the case of the task's text:
/// its verdict is the same on the text as written and on the text in lower
/// case.
pub proof fn lemma_text_rows_ignore_case(n: Seq<char>, pattern: Seq<char>, builds: bool, kind: TaskFieldFilterKind, r: ReadingView)
    ensures
        verdict(MatcherView::Substring(n), kind, r) == verdict(MatcherView::Substring(n), kind, ReadingView { text: lower(r.text), ..r }),
        verdict(MatcherView::Fuzzy(n), kind, r) == verdict(MatcherView::Fuzzy(n), kind, ReadingView { text: lower(r.text), ..r }),
        verdict(MatcherView::Regex { pattern, builds }, kind, r)
            == verdict(MatcherView::Regex { pattern, builds }, kind, ReadingView { text: lower(r.text), ..r }),
{
    lemma_lower_idempotent(r.text);
}

/// A text row in contains or fuzzy mode matches without regard to ASCII
/// case on either side: folding the typed value, the task's text, or both
/// to lower case leaves its verdict as it was.
pub proof fn lemma_text_rows_ignore_case_of_both_sides(f: FieldView, today: (int, int, int), me: Option<Seq<char>>, r: ReadingView)
    requires
        !f.empty_required,
        f.kind == TaskFieldFilterKind::String,
        f.string_mode == TaskFieldStringMode::Substring || f.string_mode == TaskFieldStringMode::Fuzzy,
    ensures
        ({
            let folded = FieldView { value: (lower(f.value.0), f.value.1), ..f };
            let lowered = ReadingView { text: lower(r.text), ..r };
            &&& verdict(matcher_of(f, today, me), f.kind, r) == verdict(matcher_of(folded, today, me), f.kind, r)
            &&& verdict(matcher_of(f, today, me), f.kind, r) == verdict(matcher_of(folded, today, me), f.kind, lowered)
        }),
{
    lemma_lower_idempotent(f.value.0);
    lemma_lower_idempotent(r.text);
}

/// Whether a task's field passes a row's test, before the row's negation.
pub open spec fn verdict(m: MatcherView, kind: TaskFieldFilterKind, r: ReadingView) -> bool {
    match m {
        MatcherView::Empty => value_empty(kind, r),
        MatcherView::Fuzzy(n) => is_subsequence(n, lower(r.text)),
        MatcherView::Substring(n) => contains_seq(lower(r.text), n),
        MatcherView::Regex { pattern, builds } => builds && regex_match(pattern, lower(r.text)),
        MatcherView::Labels { includes, excludes } => labels_match(r.labels, includes, excludes),
        MatcherView::Picked { names, me } => {
            let mine = match me {
                Some(g) => g.len() > 0 && r.assignee_gid == Some(g),
                None => false,
            };
            mine || names.contains(lower(r.text))
        },
        MatcherView::Date(q) => match (q, r.date) {
            (Some(t), Some(d)) => query_admits(t, d),
            _ => false,
        },
    }
}

impl PreparedMatcher {
    /// Prepares a row's test: `me` is who is logged in, if anyone.
    pub fn for_field(field: &TaskFilterFieldState, today: CivilDate, me: Option<&str>) -> (r: PreparedMatcher)
        ensures
            matcher_is(r, matcher_of(field@, today@, who_of(me))),
    {
        if field.empty_required {
            return PreparedMatcher::Empty;
        }
        let text = field.value.chars();
        match field.spec.kind {
            TaskFieldFilterKind::String => match field.string_mode {
                TaskFieldStringMode::List => {
                    let value = string_from_chars(text);
                    let picked = parse_label_values(value.as_str());
                    let ghost pv = texts(picked@);
                    let mut names: Vec<String> = Vec::new();
                    let mut has_me = false;
                    let mut i: usize = 0;
                    proof { reveal_strlit("me"); }
                    while i < picked.len()
                        invariant
                            i <= picked.len(),
                            pv == texts(picked@),
                            texts(names@) == named(pv.take(i as int)),
                            has_me == exists|k: int| 0 <= k < i && is_me(#[trigger] pv[k]),
                        decreases picked.len() - i,
                    {
                        assert(pv.take(i as int + 1).drop_last() == pv.take(i as int));
                        assert(pv.take(i as int + 1).last() == pv[i as int]);
                        let low = lower_chars(&chars_of(picked[i].as_str()));
                        if crate::text::is_word(&low, "me") {
                            has_me = true;
                        } else {
                            let ghost before = names@;
                            names.push(string_from_chars(&low));
                            assert(texts(names@) == texts(before).push(lower(pv[i as int])));
                        }
                        i += 1;
                    }
                    assert(pv.take(i as int) == pv);
                    let who = if has_me {
                        Some(match me {
                            Some(g) => g.to_string(),
                            None => String::new(),
                        })
                    } else {
                        None
                    };
                    PreparedMatcher::Picked { names, me: who }
                },
                TaskFieldStringMode::Fuzzy => PreparedMatcher::Fuzzy(string_from_chars(&lower_chars(text))),
                TaskFieldStringMode::Substring => PreparedMatcher::Substring(string_from_chars(&lower_chars(text))),
                TaskFieldStringMode::Regex => {
                    let pattern = string_from_chars(text);
                    let builds = regex_error(pattern.as_str()).is_none();
                    PreparedMatcher::Regex { pattern, builds }
                },
            },
            TaskFieldFilterKind::Labels => {
                let (includes, excludes) = split_label_tokens(field.label_values.as_slice());
                PreparedMatcher::Labels { includes, excludes }
            },
            TaskFieldFilterKind::Date => PreparedMatcher::Date(DateQuery::parse(text, today)),
        }
    }
}

/// Whether every label value is blank.
pub(crate) fn labels_blank(labels: &Vec<String>) -> (r: bool)
    ensures
        r == forall|i: int| 0 <= i < texts(labels@).len() ==> trim(#[trigger] texts(labels@)[i]).len() == 0,
{
    let mut i: usize = 0;
    while i < labels.len()
        invariant
            i <= labels.len(),
            forall|k: int| 0 <= k < i ==> trim(#[trigger] texts(labels@)[k]).len() == 0,
        decreases labels.len() - i,
    {
        if trim_chars(&chars_of(labels[i].as_str())).len() > 0 {
            assert(trim(texts(labels@)[i as int]).len() > 0);
            return false;
        }
        i += 1;
    }
    true
}

/// Whether a list of strings holds one equal to `x`.
fn holds(v: &Vec<String>, x: &Vec<char>) -> (r: bool)
    ensures
        r == texts(v@).contains(x@),
{
    let mut i: usize = 0;
    while i < v.len()
        invariant
            i <= v.len(),
            forall|k: int| 0 <= k < i ==> v@[k]@ != x@,
        decreases v.len() - i,
    {
        if crate::text::eq_chars(&chars_of(v[i].as_str()), x) {
            assert(texts(v@)[i as int] == x@);
            return true;
        }
        i += 1;
    }
    proof {
        if texts(v@).contains(x@) {
            let k = choose|k: int| 0 <= k < texts(v@).len() && texts(v@)[k] == x@;
            assert(v@[k]@ == x@);
        }
    }
    false
}

/// A prepared row: which of the task's fields it reads, whether it is
/// negated, the kind of value, and its test.
pub struct PreparedField {
    index: usize,
    negated: bool,
    kind: TaskFieldFilterKind,
    matcher: PreparedMatcher,
    test: Ghost<MatcherView>,
}

/// A prepared row as plain values.
pub struct PreparedFieldView {
    pub index: int,
    pub negated: bool,
    pub kind: TaskFieldFilterKind,
    pub matcher: MatcherView,
}

/// Whether a task passes a prepared row.
pub open spec fn field_accepts(f: PreparedFieldView, record: Seq<ReadingView>) -> bool {
    verdict(f.matcher, f.kind, record[f.index]) != f.negated
}

impl PreparedField {
    /// The row as plain values.
    pub closed spec fn view(&self) -> PreparedFieldView {
        PreparedFieldView { index: self.index as int, negated: self.negated, kind: self.kind, matcher: self.test@ }
    }

    /// The exec test agrees with the row's view.
    pub closed spec fn wf(&self) -> bool {
        matcher_is(self.matcher, self.test@)
    }

    /// Whether the task's field passes the row's test, before negation.
    pub fn matches_value(&self, reading: &FieldReading) -> (r: bool)
        requires
            self.wf(),
        ensures
            r == verdict(self.view().matcher, self.view().kind, reading@),
    {
        let ghost rv = reading@;
        let ghost mv = self.test@;
        match &self.matcher {
            PreparedMatcher::Empty => {
                assert(mv is Empty);
                match self.kind {
                    TaskFieldFilterKind::String => trim_chars(&chars_of(reading.text.as_str())).len() == 0,
                    TaskFieldFilterKind::Labels => {
                        let r = labels_blank(&reading.labels);
                        assert(rv.labels == texts(reading.labels@));
                        assert(r == value_empty(TaskFieldFilterKind::Labels, rv));
                        r
                    },
                    TaskFieldFilterKind::Date => reading.date.is_none(),
                }
            },
            PreparedMatcher::Fuzzy(needle) => {
                let r = fuzzy_match(&lower_chars(&chars_of(reading.text.as_str())), &chars_of(needle.as_str()));
                assert(r == verdict(mv, self.kind, rv));
                r
            },
            PreparedMatcher::Substring(needle) => {
                let r = substring_match(&lower_chars(&chars_of(reading.text.as_str())), &chars_of(needle.as_str()));
                assert(r == verdict(mv, self.kind, rv));
                r
            },
            PreparedMatcher::Regex { pattern, builds } => {
                if !*builds {
                    false
                } else {
                    let hay = string_from_chars(&lower_chars(&chars_of(reading.text.as_str())));
                    regex_is_match(pattern.as_str(), hay.as_str())
                }
            },
            PreparedMatcher::Labels { includes, excludes } => {
                let r = label_selection_matches(reading.labels.as_slice(), includes.as_slice(), excludes.as_slice());
                assert(r == verdict(mv, self.kind, rv));
                r
            },
            PreparedMatcher::Picked { names, me } => {
                let mine = match me {
                    Some(gid) => {
                        chars_of(gid.as_str()).len() > 0 && match &reading.assignee_gid {
                            Some(a) => *a == *gid,
                            None => false,
                        }
                    },
                    None => false,
                };
                let listed = holds(names, &lower_chars(&chars_of(reading.text.as_str())));
                let r = mine || listed;
                proof {
                    assert(mv is Picked);
                    let mm = mv->Picked_me;
                    let expect_mine = match mm {
                        Some(g) => g.len() > 0 && rv.assignee_gid == Some(g),
                        None => false,
                    };
                    assert(mine == expect_mine);
                    assert(listed == mv->Picked_names.contains(lower(rv.text)));
                }
                r
            },
            PreparedMatcher::Date(query) => match (query, reading.date) {
                (Some(q), Some(d)) => {
                    let hit = q.matches(d);
                    proof {
                        let t = self.test@->Date_0.unwrap();
                        assert(query_is(Some(*q), Some(t)));
                        assert(hit == query_admits(t, ordinal(d@)));
                    }
                    hit
                },
                _ => false,
            },
        }
    }

    /// Whether a task passes the row.
    pub fn matches(&self, record: &[FieldReading]) -> (r: bool)
        requires
            self.wf(),
            self.view().index < record@.len(),
        ensures
            r == field_accepts(self.view(), readings(record@)),
    {
        self.matches_value(&record[self.index]) != self.negated
    }
}

/// The task's fields as plain values.
pub open spec fn readings(record: Seq<FieldReading>) -> Seq<ReadingView> {
    record.map_values(|r: FieldReading| r@)
}

/// A value saved for one row of a named filter set.
#[derive(Debug, PartialEq, Eq)]
pub struct SavedFilterField {
    pub key: String,
    pub query: String,
    /// The match mode, when it differs from the row's own.
    pub string_mode: Option<String>,
    /// Whether the row asks for no value.
    pub empty: bool,
    pub negated: bool,
}

/// A saved value as plain values.
pub struct SavedView {
    pub key: Seq<char>,
    pub query: Seq<char>,
    pub string_mode: Option<Seq<char>>,
    pub empty: bool,
    pub negated: bool,
}

impl View for SavedFilterField {
    type V = SavedView;

    open spec fn view(&self) -> SavedView {
        SavedView {
            key: self.key@,
            query: self.query@,
            string_mode: match self.string_mode {
                Some(m) => Some(m@),
                None => None,
            },
            empty: self.empty,
            negated: self.negated,
        }
    }
}

impl Clone for SavedFilterField {
    fn clone(&self) -> (r: Self)
        ensures
            r@ == self@,
    {
        SavedFilterField {
            key: self.key.clone(),
            query: self.query.clone(),
            string_mode: match &self.string_mode {
                Some(m) => Some(m.clone()),
                None => None,
            },
            empty: self.empty,
            negated: self.negated,
        }
    }
}

/// A named filter set as saved.
#[derive(Debug, PartialEq, Eq)]
pub struct SavedFilterSet {
    pub negated: bool,
    pub fields: Vec<SavedFilterField>,
}

/// Saved values as plain values.
pub open spec fn saved_view(v: Seq<SavedFilterField>) -> Seq<SavedView> {
    v.map_values(|f: SavedFilterField| f@)
}

/// One filter set: every row the panel shows, whether the set is negated,
/// and the saved values that have no row to land on yet.
#[derive(Debug)]
pub struct TaskFilterSet {
    pub fields: Vec<TaskFilterFieldState>,
    /// Keep the tasks the rows would have rejected.
    pub negated: bool,
    pub unresolved: Vec<SavedFilterField>,
}

/// A filter set as plain values.
pub struct SetView {
    pub fields: Seq<FieldView>,
    pub negated: bool,
    pub unresolved: Seq<SavedView>,
}

/// The rows as plain values.
pub open spec fn fields_view(v: Seq<TaskFilterFieldState>) -> Seq<FieldView> {
    v.map_values(|f: TaskFilterFieldState| f@)
}

impl View for TaskFilterSet {
    type V = SetView;

    open spec fn view(&self) -> SetView {
        SetView { fields: fields_view(self.fields@), negated: self.negated, unresolved: saved_view(self.unresolved@) }
    }
}

/// A prepared set as plain values.
pub struct PreparedSetView {
    pub negated: bool,
    pub fields: Seq<PreparedFieldView>,
}

/// The rows of a set that filter, prepared, in order.
pub open spec fn active_fields(fs: Seq<FieldView>, today: (int, int, int), me: Option<Seq<char>>) -> Seq<PreparedFieldView>
    decreases fs.len(),
{
    if fs.len() == 0 {
        Seq::empty()
    } else {
        let rest = active_fields(fs.drop_last(), today, me);
        let f = fs.last();
        if row_active(f) {
            rest.push(PreparedFieldView {
                index: fs.len() - 1,
                negated: f.negated,
                kind: f.kind,
                matcher: matcher_of(f, today, me),
            })
        } else {
            rest
        }
    }
}

/// A set prepared for filtering.
pub open spec fn prepared_set(s: SetView, today: (int, int, int), me: Option<Seq<char>>) -> PreparedSetView {
    PreparedSetView { negated: s.negated, fields: active_fields(s.fields, today, me) }
}

/// Whether a task passes a set: all of its rows, or, negated, not all.
pub open spec fn set_accepts(s: PreparedSetView, record: Seq<ReadingView>) -> bool {
    (forall|k: int| 0 <= k < s.fields.len() ==> #[trigger] field_accepts(s.fields[k], record)) != s.negated
}

/// Whether a task is shown: it passes any set, or there are none.
pub open spec fn filter_accepts(sets: Seq<PreparedSetView>, record: Seq<ReadingView>) -> bool {
    sets.len() == 0 || exists|i: int| 0 <= i < sets.len() && #[trigger] set_accepts(sets[i], record)
}

/// Whether every prepared row reads a field the task has.
pub open spec fn fits(sets: Seq<PreparedSetView>, n: int) -> bool {
    forall|i: int, k: int| 0 <= i < sets.len() && 0 <= k < sets[i].fields.len()
        ==> 0 <= #[trigger] sets[i].fields[k].index < n
}

/// A set ready for filtering.
pub struct PreparedSet {
    negated: bool,
    fields: Vec<PreparedField>,
}

/// Every set ready for filtering.
pub struct PreparedFilter {
    sets: Vec<PreparedSet>,
}

impl PreparedSet {
    /// The set as plain values.
    pub closed spec fn view(&self) -> PreparedSetView {
        PreparedSetView { negated: self.negated, fields: self.fields@.map_values(|f: PreparedField| f.view()) }
    }

    /// Every row's test agrees with its view.
    pub closed spec fn wf(&self) -> bool {
        forall|k: int| 0 <= k < self.fields@.len() ==> (#[trigger] self.fields@[k]).wf()
    }

    /// Whether a task passes the set.
    pub fn matches(&self, record: &[FieldReading]) -> (r: bool)
        requires
            self.wf(),
            forall|k: int| 0 <= k < self.view().fields.len() ==> 0 <= #[trigger] self.view().fields[k].index < record@.len(),
        ensures
            r == set_accepts(self.view(), readings(record@)),
    {
        let ghost v = self.view();
        let mut all = true;
        let mut k: usize = 0;
        while k < self.fields.len()
            invariant
                k <= self.fields.len(),
                v == self.view(),
                self.wf(),
                forall|j: int| 0 <= j < v.fields.len() ==> 0 <= #[trigger] v.fields[j].index < record@.len(),
                all == forall|j: int| 0 <= j < k ==> #[trigger] field_accepts(v.fields[j], readings(record@)),
            decreases self.fields.len() - k,
        {
            assert(v.fields[k as int] == self.fields@[k as int].view());
            let ok = self.fields[k].matches(record);
            if !ok {
                all = false;
            }
            k += 1;
        }
        all != self.negated
    }
}

impl PreparedFilter {
    /// Every set as plain values.
    pub closed spec fn view(&self) -> Seq<PreparedSetView> {
        self.sets@.map_values(|s: PreparedSet| s.view())
    }

    /// Every row's test agrees with its view.
    pub closed spec fn wf(&self) -> bool {
        forall|i: int| 0 <= i < self.sets@.len() ==> (#[trigger] self.sets@[i]).wf()
    }

    /// Whether a task is shown.
    pub fn matches(&self, record: &[FieldReading]) -> (r: bool)
        requires
            self.wf(),
            fits(self.view(), record@.len() as int),
        ensures
            r == filter_accepts(self.view(), readings(record@)),
    {
        let ghost v = self.view();
        if self.sets.len() == 0 {
            return true;
        }
        let mut i: usize = 0;
        while i < self.sets.len()
            invariant
                i <= self.sets.len(),
                v == self.view(),
                self.wf(),
                fits(v, record@.len() as int),
                forall|j: int| 0 <= j < i ==> !#[trigger] set_accepts(v[j], readings(record@)),
            decreases self.sets.len() - i,
        {
            assert(v[i as int] == self.sets@[i as int].view());
            assert(self.sets@[i as int].wf());
            assert forall|k: int| 0 <= k < v[i as int].fields.len() implies 0 <= #[trigger] v[i as int].fields[k].index < record@.len() by {
                assert(0 <= v[i as int].fields[k].index < record@.len());
            }
            if self.sets[i].matches(record) {
                return true;
            }
            i += 1;
        }
        false
    }
}

/// Who is logged in, as plain values.
pub open spec fn who_of(me: Option<&str>) -> Option<Seq<char>> {
    match me {
        Some(g) => Some(g@),
        None => None,
    }
}

/// Every set prepared for filtering.
pub open spec fn prepared_all(sets: Seq<TaskFilterSet>, today: (int, int, int), me: Option<Seq<char>>) -> Seq<PreparedSetView> {
    sets.map_values(|s: TaskFilterSet| prepared_set(s@, today, me))
}

/// Prepares one set for filtering on a given day.
fn prepare_set(set: &TaskFilterSet, today: CivilDate, me: Option<&str>) -> (r: PreparedSet)
    ensures
        r.wf(),
        r.view() == prepared_set(set@, today@, who_of(me)),
        forall|k: int| 0 <= k < r.view().fields.len() ==> 0 <= #[trigger] r.view().fields[k].index < set.fields@.len(),
{
    let ghost who = who_of(me);
    let ghost fs = fields_view(set.fields@);
    let mut fields: Vec<PreparedField> = Vec::new();
    let mut i: usize = 0;
    while i < set.fields.len()
        invariant
            i <= set.fields.len(),
            fs == fields_view(set.fields@),
            who == who_of(me),
            fields@.map_values(|f: PreparedField| f.view()) == active_fields(fs.take(i as int), today@, who),
            forall|k: int| 0 <= k < fields@.len() ==> (#[trigger] fields@[k]).wf(),
            forall|k: int| 0 <= k < fields@.len() ==> 0 <= #[trigger] fields@[k].view().index < i,
        decreases set.fields.len() - i,
    {
        assert(fs.take(i as int + 1).drop_last() == fs.take(i as int));
        assert(fs.take(i as int + 1).last() == fs[i as int]);
        let field = &set.fields[i];
        if field.is_active() {
            let matcher = PreparedMatcher::for_field(field, today, me);
            let ghost mv = matcher_of(field@, today@, who);
            let ghost before = fields@;
            fields.push(PreparedField { index: i, negated: field.negated, kind: field.spec.kind, matcher, test: Ghost(mv) });
            assert(fields@.map_values(|f: PreparedField| f.view())
                == before.map_values(|f: PreparedField| f.view()).push(PreparedFieldView {
                    index: i as int, negated: field.negated, kind: field.spec.kind, matcher: mv }));
        }
        i += 1;
    }
    assert(fs.take(i as int) == fs);
    PreparedSet { negated: set.negated, fields }
}

/// Prepares every set for filtering on a given day, for whoever is logged
/// in.
pub fn prepare_at(sets: &[TaskFilterSet], today: CivilDate, me: Option<&str>) -> (r: PreparedFilter)
    ensures
        r.wf(),
        r.view() == prepared_all(sets@, today@, who_of(me)),
        forall|i: int, k: int| 0 <= i < r.view().len() && 0 <= k < r.view()[i].fields.len()
            ==> 0 <= #[trigger] r.view()[i].fields[k].index < sets@[i].fields@.len(),
{
    let mut out: Vec<PreparedSet> = Vec::new();
    let mut i: usize = 0;
    while i < sets.len()
        invariant
            i <= sets.len(),
            out@.map_values(|s: PreparedSet| s.view())
                == sets@.take(i as int).map_values(|s: TaskFilterSet| prepared_set(s@, today@, who_of(me))),
            forall|j: int| 0 <= j < out@.len() ==> (#[trigger] out@[j]).wf(),
            forall|j: int, k: int| 0 <= j < out@.len() && 0 <= k < out@[j].view().fields.len()
                ==> 0 <= #[trigger] out@[j].view().fields[k].index < sets@[j].fields@.len(),
        decreases sets.len() - i,
    {
        let set = prepare_set(&sets[i], today, me);
        let ghost before = out@;
        out.push(set);
        assert(out@.map_values(|s: PreparedSet| s.view()) == before.map_values(|s: PreparedSet| s.view()).push(set.view()));
        assert(sets@.take(i as int + 1) == sets@.take(i as int).push(sets@[i as int]));
        i += 1;
    }
    assert(sets@.take(i as int) == sets@);
    PreparedFilter { sets: out }
}

/// Prepares every set for filtering today, for whoever is logged in.
pub fn prepare(sets: &[TaskFilterSet], me: Option<&str>) -> (r: PreparedFilter)
    ensures
        r.wf(),
        exists|today: (int, int, int)| crate::date::valid_ymd(today) && r.view() == #[trigger] prepared_all(sets@, today, who_of(me)),
        forall|i: int, k: int| 0 <= i < r.view().len() && 0 <= k < r.view()[i].fields.len()
            ==> 0 <= #[trigger] r.view()[i].fields[k].index < sets@[i].fields@.len(),
{
    let day = crate::date::today();
    prepare_at(sets, day, me)
}

/// Negating a row keeps exactly what it was throwing away.
pub proof fn lemma_negating_a_row_inverts_it(f: PreparedFieldView, record: Seq<ReadingView>)
    ensures
        field_accepts(PreparedFieldView { negated: !f.negated, ..f }, record) == !field_accepts(f, record),
{
}

/// A negated row that asks for no value asks for some value, whatever it is.
pub proof fn lemma_negated_require_empty_asks_for_a_value(f: PreparedFieldView, record: Seq<ReadingView>)
    requires
        f.matcher is Empty,
        f.negated,
    ensures
        field_accepts(f, record) == !value_empty(f.kind, record[f.index]),
{
}

/// Negating a set inverts its rows together: `not (a and b)`, not
/// `(not a) and (not b)`.
pub proof fn lemma_negating_a_set_inverts_it(s: PreparedSetView, record: Seq<ReadingView>)
    ensures
        set_accepts(PreparedSetView { negated: !s.negated, ..s }, record) == !set_accepts(s, record),
        !s.negated ==> (set_accepts(s, record) <==> forall|k: int| 0 <= k < s.fields.len() ==> #[trigger] field_accepts(s.fields[k], record)),
{
    let t = PreparedSetView { negated: !s.negated, ..s };
    assert(t.fields == s.fields);
    let all = forall|k: int| 0 <= k < s.fields.len() ==> #[trigger] field_accepts(s.fields[k], record);
    assert(set_accepts(t, record) == (all != t.negated));
    assert(set_accepts(s, record) == (all != s.negated));
}

/// Sets are alternatives: a task passes a filter exactly when it passes one
/// of its sets, and adding a set to a filter that has any can only widen it.
pub proof fn lemma_sets_are_alternatives(sets: Seq<PreparedSetView>, extra: PreparedSetView, record: Seq<ReadingView>)
    ensures
        sets.len() > 0 ==> (filter_accepts(sets, record) <==> exists|i: int| 0 <= i < sets.len() && #[trigger] set_accepts(sets[i], record)),
        sets.len() > 0 && filter_accepts(sets, record) ==> filter_accepts(sets.push(extra), record),
        set_accepts(extra, record) ==> filter_accepts(sets.push(extra), record),
{
    if sets.len() > 0 && filter_accepts(sets, record) {
        let i = choose|i: int| 0 <= i < sets.len() && #[trigger] set_accepts(sets[i], record);
        assert(sets.push(extra)[i] == sets[i]);
    }
    if set_accepts(extra, record) {
        assert(sets.push(extra)[sets.len() as int] == extra);
    }
}

/// A set none of whose rows filter accepts every task, so adding one to a
/// filter shows everything.
pub proof fn lemma_an_empty_set_accepts_everything(s: SetView, today: (int, int, int), me: Option<Seq<char>>, record: Seq<ReadingView>)
    requires
        !s.negated,
        forall|k: int| 0 <= k < s.fields.len() ==> !row_active(#[trigger] s.fields[k]),
    ensures
        prepared_set(s, today, me).fields.len() == 0,
        set_accepts(prepared_set(s, today, me), record),
{
    lemma_no_active_rows(s.fields, today, me);
}

proof fn lemma_no_active_rows(fs: Seq<FieldView>, today: (int, int, int), me: Option<Seq<char>>)
    requires
        forall|k: int| 0 <= k < fs.len() ==> !row_active(#[trigger] fs[k]),
    ensures
        active_fields(fs, today, me).len() == 0,
    decreases fs.len(),
{
    if fs.len() > 0 {
        assert(!row_active(fs[fs.len() - 1]));
        assert forall|k: int| 0 <= k < fs.drop_last().len() implies !row_active(#[trigger] fs.drop_last()[k]) by {
            assert(fs.drop_last()[k] == fs[k]);
        }
        lemma_no_active_rows(fs.drop_last(), today, me);
    }
}

} // verus!
