//! The project picker: every project the account can see, sorted with the
//! starred ones first and the hidden ones last, narrowed by the hidden
//! group, by the selection and by a search in one of three modes.

use vstd::prelude::*;
use vstd::relations::{sorted_by, total_ordering};
use crate::error::{Error, error_text};
use crate::input::{Action, AppCommand, command_of};
use crate::matching::{fuzzy_match, is_subsequence, regex_compile_error, regex_error, regex_match, regex_search, substring_match};
use crate::order::{chars_le, chars_less, chars_lt, lemma_chars_le_total, lemma_lt_asymmetric, lemma_lt_connected, lemma_lt_transitive};
use crate::text::{chars_of, concat_chars, contains_seq, lower, lower_chars, push_char, slice_chars, string_from_chars};

verus! {

/// A project as the picker shows it.
#[derive(Debug, PartialEq, Eq)]
pub struct Project {
    pub id: String,
    pub name: String,
    pub starred: bool,
    pub hidden: bool,
}

/// A project as plain values: id, name, starred, hidden.
pub type ProjectView = (Seq<char>, Seq<char>, bool, bool);

impl View for Project {
    type V = ProjectView;

    open spec fn view(&self) -> ProjectView {
        (self.id@, self.name@, self.starred, self.hidden)
    }
}

impl Project {
    /// A project that is not hidden.
    pub fn new(id: &str, name: &str, starred: bool) -> (r: Project)
        ensures
            r@ == (id@, name@, starred, false),
    {
        Project { id: id.to_string(), name: name.to_string(), starred, hidden: false }
    }
}

impl Clone for Project {
    fn clone(&self) -> (r: Self)
        ensures
            r@ == self@,
    {
        Project { id: self.id.clone(), name: self.name.clone(), starred: self.starred, hidden: self.hidden }
    }
}

/// A remembered choice to star or hide a project, by its id.
#[derive(Debug, PartialEq, Eq)]
pub struct ProjectVisibilityConfig {
    pub gid: String,
    pub starred: bool,
    pub hidden: bool,
}

/// A visibility choice as plain values: id, starred, hidden.
pub type PrefView = (Seq<char>, bool, bool);

impl View for ProjectVisibilityConfig {
    type V = PrefView;

    open spec fn view(&self) -> PrefView {
        (self.gid@, self.starred, self.hidden)
    }
}

impl Clone for ProjectVisibilityConfig {
    fn clone(&self) -> (r: Self)
        ensures
            r@ == self@,
    {
        ProjectVisibilityConfig { gid: self.gid.clone(), starred: self.starred, hidden: self.hidden }
    }
}

/// Where the picker gets its projects.
pub trait AsanaClient {
    /// Every project the account can see.
    fn list_projects(&self) -> Result<Vec<Project>, Error>;
}

/// How the search query is read.
#[derive(Clone, Copy, Debug, PartialEq, Eq, Structural)]
pub enum SearchMode {
    /// The query's characters in order, with anything between.
    Fuzzy,
    /// The query as written.
    Substring,
    /// The query as a case-insensitive regular expression.
    Regex,
}

impl Default for SearchMode {
    fn default() -> (r: SearchMode)
        ensures
            r == SearchMode::Substring,
    {
        SearchMode::Substring
    }
}

/// Where loading the projects stands.
#[derive(Debug, PartialEq, Eq)]
pub enum ProjectListStatus {
    Idle,
    Loading,
    Ready,
    Empty,
    Error(String),
}

/// Where loading stands, as plain values.
pub enum StatusView {
    Idle,
    Loading,
    Ready,
    Empty,
    Error(Seq<char>),
}

impl View for ProjectListStatus {
    type V = StatusView;

    open spec fn view(&self) -> StatusView {
        match self {
            ProjectListStatus::Idle => StatusView::Idle,
            ProjectListStatus::Loading => StatusView::Loading,
            ProjectListStatus::Ready => StatusView::Ready,
            ProjectListStatus::Empty => StatusView::Empty,
            ProjectListStatus::Error(m) => StatusView::Error(m@),
        }
    }
}

impl Default for ProjectListStatus {
    fn default() -> (r: ProjectListStatus)
        ensures
            r@ == StatusView::Idle,
    {
        ProjectListStatus::Idle
    }
}

/// The projects as plain values.
pub open spec fn projects_view(s: Seq<Project>) -> Seq<ProjectView> {
    s.map_values(|p: Project| p@)
}

/// The projects whose ids are chosen, in order.
pub open spec fn chosen(ps: Seq<ProjectView>, ids: Seq<Seq<char>>) -> Seq<ProjectView>
    decreases ps.len(),
{
    if ps.len() == 0 {
        ps
    } else if ids.contains(ps.last().0) {
        chosen(ps.drop_last(), ids).push(ps.last())
    } else {
        chosen(ps.drop_last(), ids)
    }
}

/// The visibility choices as plain values.
pub open spec fn prefs_view(s: Seq<ProjectVisibilityConfig>) -> Seq<PrefView> {
    s.map_values(|p: ProjectVisibilityConfig| p@)
}

/// The first choice at or after `i` for a project id, or -1.
pub open spec fn pref_index_from(prefs: Seq<PrefView>, id: Seq<char>, i: int) -> int
    decreases prefs.len() - i,
{
    if i < 0 || i >= prefs.len() {
        -1
    } else if prefs[i].0 == id {
        i
    } else {
        pref_index_from(prefs, id, i + 1)
    }
}

/// A project with the first choice made for its id applied.
pub open spec fn apply_pref(p: ProjectView, prefs: Seq<PrefView>) -> ProjectView {
    let i = pref_index_from(prefs, p.0, 0);
    if i >= 0 { (p.0, p.1, prefs[i].1, prefs[i].2) } else { p }
}

/// Projects with the remembered choices applied.
pub open spec fn apply_prefs(ps: Seq<ProjectView>, prefs: Seq<PrefView>) -> Seq<ProjectView> {
    ps.map_values(|p: ProjectView| apply_pref(p, prefs))
}

/// The order projects are listed in: shown before hidden, starred before
/// not, then by name, then by id.
pub open spec fn project_leq(a: ProjectView, b: ProjectView) -> bool {
    if a.3 != b.3 {
        !a.3
    } else if a.2 != b.2 {
        a.2
    } else if a.1 != b.1 {
        chars_lt(a.1, b.1)
    } else {
        chars_le(a.0, b.0)
    }
}

/// Projects in listing order.
pub open spec fn sort_projects_spec(ps: Seq<ProjectView>) -> Seq<ProjectView> {
    ps.sort_by(|a: ProjectView, b: ProjectView| project_leq(a, b))
}

/// The listing order is a total order.
pub proof fn lemma_project_leq_total()
    ensures
        total_ordering(|a: ProjectView, b: ProjectView| project_leq(a, b)),
{
    let leq = |a: ProjectView, b: ProjectView| project_leq(a, b);
    assert forall|x: ProjectView| #[trigger] leq(x, x) by {}
    assert forall|x: ProjectView, y: ProjectView| #[trigger] leq(x, y) && #[trigger] leq(y, x) implies x == y by {
        lemma_lt_asymmetric(x.1, y.1);
        lemma_lt_asymmetric(x.0, y.0);
    }
    assert forall|x: ProjectView, y: ProjectView, z: ProjectView| #[trigger] leq(x, y) && #[trigger] leq(y, z) implies leq(x, z) by {
        if x.1 != y.1 && y.1 != z.1 && chars_lt(x.1, y.1) && chars_lt(y.1, z.1) {
            lemma_lt_transitive(x.1, y.1, z.1);
            lemma_lt_asymmetric(x.1, z.1);
        }
        if chars_lt(x.1, y.1) && chars_lt(y.1, z.1) {
            lemma_lt_transitive(x.1, y.1, z.1);
            lemma_lt_asymmetric(x.1, z.1);
        }
        if x.0 != y.0 && y.0 != z.0 && chars_lt(x.0, y.0) && chars_lt(y.0, z.0) {
            lemma_lt_transitive(x.0, y.0, z.0);
        }
        lemma_lt_asymmetric(x.1, z.1);
        lemma_lt_asymmetric(x.1, y.1);
    }
    assert forall|x: ProjectView, y: ProjectView| #[trigger] leq(x, y) || #[trigger] leq(y, x) by {
        lemma_lt_connected(x.1, y.1);
        lemma_lt_connected(x.0, y.0);
    }
}

/// What a project is searched by: its name, a space and its id, folded to
/// lower case.
pub open spec fn haystack(p: ProjectView) -> Seq<char> {
    lower(p.1 + seq![' '] + p.0)
}

/// The abstract state of the picker.
#[verifier::ext_equal]
pub struct ListModel {
    pub all: Seq<ProjectView>,
    pub visible: Seq<ProjectView>,
    pub selected_ids: Seq<Seq<char>>,
    pub selected: Option<int>,
    pub status: StatusView,
    pub show_hidden: bool,
    pub show_selected_only: bool,
    pub search_mode: SearchMode,
    pub query: Seq<char>,
    pub search_active: bool,
    pub search_error: Option<Seq<char>>,
}

/// Whether the search matches a project's haystack.
pub open spec fn search_matches(mode: SearchMode, query: Seq<char>, p: ProjectView) -> bool {
    if query.len() == 0 {
        true
    } else {
        match mode {
            SearchMode::Fuzzy => is_subsequence(lower(query), haystack(p)),
            SearchMode::Substring => contains_seq(haystack(p), lower(query)),
            SearchMode::Regex => regex_compile_error(query) is None && regex_match(query, haystack(p)),
        }
    }
}

/// Whether a project is listed: hidden ones only with the hidden group
/// shown, unselected ones not when only the selection is shown, and only
/// those the search matches.
pub open spec fn project_matches(m: ListModel, p: ProjectView) -> bool {
    &&& (m.show_hidden || !p.3)
    &&& (!m.show_selected_only || m.selected_ids.contains(p.0))
    &&& search_matches(m.search_mode, m.query, p)
}

/// The listed projects, in listing order.
pub open spec fn visible_of(m: ListModel) -> Seq<ProjectView> {
    m.all.filter(|p: ProjectView| project_matches(m, p))
}

/// The error the search reports: a regular expression that does not build.
pub open spec fn search_error_of(m: ListModel) -> Option<Seq<char>> {
    if m.search_mode == SearchMode::Regex && m.query.len() > 0 { regex_compile_error(m.query) } else { None }
}

/// The first position at or after `i` of a project with this id, or -1.
pub open spec fn id_index_from(ps: Seq<ProjectView>, id: Seq<char>, i: int) -> int
    decreases ps.len() - i,
{
    if i < 0 || i >= ps.len() {
        -1
    } else if ps[i].0 == id {
        i
    } else {
        id_index_from(ps, id, i + 1)
    }
}

/// The id of the project under the cursor.
pub open spec fn cursor_id(m: ListModel) -> Option<Seq<char>> {
    match m.selected {
        Some(i) => if 0 <= i < m.visible.len() { Some(m.visible[i].0) } else { None },
        None => None,
    }
}

/// The picker after its listing is worked out again: the project that was
/// under the cursor keeps it if it is still listed, else the cursor keeps
/// its row, held to the list.
pub open spec fn rebuild(m: ListModel, previous: Option<Seq<char>>) -> ListModel {
    let vis = visible_of(m);
    let found = match previous {
        Some(id) => id_index_from(vis, id, 0),
        None => -1,
    };
    let row = match m.selected {
        Some(i) => i,
        None => 0,
    };
    ListModel {
        visible: vis,
        selected: if vis.len() == 0 {
            None
        } else if found >= 0 {
            Some(found)
        } else {
            Some(if row < vis.len() - 1 { row } else { vis.len() - 1 })
        },
        search_error: search_error_of(m),
        ..m
    }
}

/// The cursor sits on a listed project exactly when there is one.
pub open spec fn cursor_wf(m: ListModel) -> bool {
    match m.selected {
        Some(i) => 0 <= i < m.visible.len(),
        None => m.visible.len() == 0,
    }
}

/// What always holds of the picker: the listing is the matching projects in
/// order, the cursor is on it, no id is selected twice, and the search error
/// is the current query's.
pub open spec fn list_wf(m: ListModel) -> bool {
    &&& sorted_by(m.all, |a: ProjectView, b: ProjectView| project_leq(a, b))
    &&& m.visible == visible_of(m)
    &&& cursor_wf(m)
    &&& m.selected_ids.no_duplicates()
    &&& m.search_error == search_error_of(m)
}

proof fn lemma_rebuild_wf(m: ListModel, previous: Option<Seq<char>>)
    requires
        m.selected_ids.no_duplicates(),
        sorted_by(m.all, |a: ProjectView, b: ProjectView| project_leq(a, b)),
        m.selected matches Some(i) ==> 0 <= i,
    ensures
        list_wf(rebuild(m, previous)),
{
    let vis = visible_of(m);
    if let Some(id) = previous {
        lemma_id_index_from(vis, id, 0);
    }
    let r = rebuild(m, previous);
    lemma_same_filter(m, r);
}

/// The listing depends only on the projects, the flags, the selection and
/// the search.
pub proof fn lemma_same_filter(a: ListModel, b: ListModel)
    requires
        a.all == b.all,
        a.show_hidden == b.show_hidden,
        a.show_selected_only == b.show_selected_only,
        a.selected_ids == b.selected_ids,
        a.search_mode == b.search_mode,
        a.query == b.query,
    ensures
        visible_of(a) == visible_of(b),
        search_error_of(a) == search_error_of(b),
{
    let f1 = |p: ProjectView| project_matches(a, p);
    let f2 = |p: ProjectView| project_matches(b, p);
    assert(f1 =~= f2);
}

proof fn lemma_id_index_from(ps: Seq<ProjectView>, id: Seq<char>, i: int)
    requires
        0 <= i <= ps.len(),
    ensures
        -1 <= id_index_from(ps, id, i) < ps.len(),
        id_index_from(ps, id, i) >= 0 ==> i <= id_index_from(ps, id, i) && ps[id_index_from(ps, id, i)].0 == id,
        id_index_from(ps, id, i) == -1 ==> forall|j: int| i <= j < ps.len() ==> ps[j].0 != id,
    decreases ps.len() - i,
{
    if i < ps.len() && ps[i].0 != id {
        lemma_id_index_from(ps, id, i + 1);
    }
}

/// Inserting a value after everything that sorts before it and before
/// everything it sorts before keeps a sequence sorted.
pub proof fn lemma_insert_sorted<A>(s: Seq<A>, x: A, p: int, leq: spec_fn(A, A) -> bool)
    requires
        total_ordering(leq),
        sorted_by(s, leq),
        0 <= p <= s.len(),
        forall|j: int| 0 <= j < p ==> #[trigger] leq(s[j], x),
        p < s.len() ==> leq(x, s[p]),
    ensures
        sorted_by(s.insert(p, x), leq),
{
    let t = s.insert(p, x);
    assert forall|i: int, j: int| 0 <= i < j < t.len() implies #[trigger] leq(t[i], t[j]) by {
        if j < p {
            assert(leq(s[i], s[j]));
        } else if j == p {
            assert(leq(s[i], x));
        } else if i < p {
            assert(leq(s[i], s[j - 1]));
        } else if i == p {
            if j - 1 > p {
                assert(leq(s[p], s[j - 1]));
            }
        } else {
            assert(leq(s[i - 1], s[j - 1]));
        }
    }
}

/// Whether one project is listed no later than another.
fn project_le(a: &Project, b: &Project) -> (r: bool)
    ensures
        r == project_leq(a@, b@),
{
    if a.hidden != b.hidden {
        !a.hidden
    } else if a.starred != b.starred {
        a.starred
    } else {
        let an = chars_of(a.name.as_str());
        let bn = chars_of(b.name.as_str());
        if !crate::text::eq_chars(&an, &bn) {
            chars_less(&an, &bn)
        } else {
            let ai = chars_of(a.id.as_str());
            let bi = chars_of(b.id.as_str());
            crate::text::eq_chars(&ai, &bi) || chars_less(&ai, &bi)
        }
    }
}

/// Projects in listing order.
fn sort_projects(projects: Vec<Project>) -> (r: Vec<Project>)
    ensures
        projects_view(r@) == sort_projects_spec(projects_view(projects@)),
        sorted_by(projects_view(r@), |a: ProjectView, b: ProjectView| project_leq(a, b)),
{
    let ghost leq = |a: ProjectView, b: ProjectView| project_leq(a, b);
    let ghost src = projects_view(projects@);
    proof { lemma_project_leq_total(); }
    let mut out: Vec<Project> = Vec::new();
    let mut i: usize = 0;
    assert(projects_view(out@) == src.take(0));
    while i < projects.len()
        invariant
            i <= projects.len(),
            src == projects_view(projects@),
            leq == (|a: ProjectView, b: ProjectView| project_leq(a, b)),
            total_ordering(leq),
            sorted_by(projects_view(out@), leq),
            projects_view(out@).to_multiset() == src.take(i as int).to_multiset(),
        decreases projects.len() - i,
    {
        let x = projects[i].clone();
        let mut p: usize = 0;
        while p < out.len() && project_le(&out[p], &x)
            invariant
                p <= out.len(),
                leq == (|a: ProjectView, b: ProjectView| project_leq(a, b)),
                forall|j: int| 0 <= j < p ==> #[trigger] leq(projects_view(out@)[j], x@),
            decreases out.len() - p,
        {
            p += 1;
        }
        let ghost before = projects_view(out@);
        proof {
            if p < out.len() {
                assert(!leq(before[p as int], x@));
                assert(leq(before[p as int], x@) || leq(x@, before[p as int]));
            }
            lemma_insert_sorted(before, x@, p as int, leq);
            vstd::seq_lib::to_multiset_insert(before, p as int, x@);
            assert(src.take(i as int + 1) == src.take(i as int).push(src[i as int]));
            vstd::seq_lib::to_multiset_build(src.take(i as int), src[i as int]);
        }
        out.insert(p, x);
        assert(projects_view(out@) == before.insert(p as int, x@));
        i += 1;
    }
    proof {
        assert(src.take(i as int) == src);
        src.lemma_sort_by_ensures(leq);
        vstd::seq_lib::lemma_sorted_unique(projects_view(out@), src.sort_by(leq), leq);
    }
    out
}

/// Ids in string order.
pub open spec fn sort_ids_spec(ids: Seq<Seq<char>>) -> Seq<Seq<char>> {
    ids.sort_by(|a: Seq<char>, b: Seq<char>| chars_le(a, b))
}

/// The strings as plain values.
pub open spec fn ids_view(s: Seq<String>) -> Seq<Seq<char>> {
    s.map_values(|x: String| x@)
}

/// Ids in string order.
fn sort_ids(ids: &Vec<String>) -> (r: Vec<String>)
    ensures
        ids_view(r@) == sort_ids_spec(ids_view(ids@)),
{
    let ghost leq = |a: Seq<char>, b: Seq<char>| chars_le(a, b);
    let ghost src = ids_view(ids@);
    proof { lemma_chars_le_total(); }
    let mut out: Vec<String> = Vec::new();
    let mut i: usize = 0;
    assert(ids_view(out@) == src.take(0));
    while i < ids.len()
        invariant
            i <= ids.len(),
            src == ids_view(ids@),
            leq == (|a: Seq<char>, b: Seq<char>| chars_le(a, b)),
            total_ordering(leq),
            sorted_by(ids_view(out@), leq),
            ids_view(out@).to_multiset() == src.take(i as int).to_multiset(),
        decreases ids.len() - i,
    {
        let x = ids[i].clone();
        let xc = chars_of(x.as_str());
        let mut p: usize = 0;
        while p < out.len() && (out[p] == x || chars_less(&chars_of(out[p].as_str()), &xc))
            invariant
                p <= out.len(),
                xc@ == x@,
                leq == (|a: Seq<char>, b: Seq<char>| chars_le(a, b)),
                forall|j: int| 0 <= j < p ==> #[trigger] leq(ids_view(out@)[j], x@),
            decreases out.len() - p,
        {
            p += 1;
        }
        let ghost before = ids_view(out@);
        proof {
            if p < out.len() {
                assert(!leq(before[p as int], x@));
                assert(leq(before[p as int], x@) || leq(x@, before[p as int]));
            }
            lemma_insert_sorted(before, x@, p as int, leq);
            vstd::seq_lib::to_multiset_insert(before, p as int, x@);
            assert(src.take(i as int + 1) == src.take(i as int).push(src[i as int]));
            vstd::seq_lib::to_multiset_build(src.take(i as int), src[i as int]);
        }
        out.insert(p, x);
        assert(ids_view(out@) == before.insert(p as int, x@));
        i += 1;
    }
    proof {
        assert(src.take(i as int) == src);
        src.lemma_sort_by_ensures(leq);
        vstd::seq_lib::lemma_sorted_unique(ids_view(out@), src.sort_by(leq), leq);
    }
    out
}

/// Where a choice goes among choices sorted by id: before the first whose
/// id sorts after its own, so choices with equal ids keep their order.
pub open spec fn gid_slot(s: Seq<PrefView>, g: Seq<char>, i: int) -> int
    decreases s.len() - i,
{
    if i < 0 || i >= s.len() {
        s.len() as int
    } else if chars_lt(g, s[i].0) {
        i
    } else {
        gid_slot(s, g, i + 1)
    }
}

/// Choices sorted by id, choices with equal ids in the order given.
pub open spec fn sort_prefs_spec(s: Seq<PrefView>) -> Seq<PrefView>
    decreases s.len(),
{
    if s.len() == 0 {
        s
    } else {
        let t = sort_prefs_spec(s.drop_last());
        t.insert(gid_slot(t, s.last().0, 0), s.last())
    }
}

proof fn lemma_gid_slot(s: Seq<PrefView>, g: Seq<char>, i: int)
    requires
        0 <= i <= s.len(),
    ensures
        i <= gid_slot(s, g, i) <= s.len(),
    decreases s.len() - i,
{
    if i < s.len() && !chars_lt(g, s[i].0) {
        lemma_gid_slot(s, g, i + 1);
    }
}

proof fn lemma_sort_prefs_len(s: Seq<PrefView>)
    ensures
        sort_prefs_spec(s).len() == s.len(),
    decreases s.len(),
{
    if s.len() > 0 {
        lemma_sort_prefs_len(s.drop_last());
        lemma_gid_slot(sort_prefs_spec(s.drop_last()), s.last().0, 0);
    }
}

/// A project's remembered choice.
pub open spec fn pref_of(p: ProjectView) -> PrefView {
    (p.0, p.2, p.3)
}

/// The projects worth remembering a choice for: starred or hidden ones.
pub open spec fn remembered(ps: Seq<ProjectView>) -> Seq<PrefView> {
    ps.filter(|p: ProjectView| p.2 || p.3).map_values(|p: ProjectView| pref_of(p))
}

/// The choices to persist, sorted by id.
pub open spec fn preferences_of(ps: Seq<ProjectView>) -> Seq<PrefView> {
    sort_prefs_spec(remembered(ps))
}

/// The choices to persist for a list of projects.
fn preferences(projects: &Vec<Project>) -> (r: Vec<ProjectVisibilityConfig>)
    ensures
        prefs_view(r@) == preferences_of(projects_view(projects@)),
{
    let ghost src = projects_view(projects@);
    let ghost keep = |p: ProjectView| p.2 || p.3;
    let mut out: Vec<ProjectVisibilityConfig> = Vec::new();
    let mut i: usize = 0;
    proof { reveal(Seq::filter); }
    assert(src.take(0).filter(keep).map_values(|p: ProjectView| pref_of(p)) == Seq::<PrefView>::empty());
    while i < projects.len()
        invariant
            i <= projects.len(),
            src == projects_view(projects@),
            keep == (|p: ProjectView| p.2 || p.3),
            prefs_view(out@) == sort_prefs_spec(src.take(i as int).filter(keep).map_values(|p: ProjectView| pref_of(p))),
        decreases projects.len() - i,
    {
        proof { reveal(Seq::filter); }
        let ghost before = src.take(i as int).filter(keep).map_values(|p: ProjectView| pref_of(p));
        assert(src.take(i as int + 1).drop_last() == src.take(i as int));
        assert(src.take(i as int + 1).last() == src[i as int]);
        if projects[i].starred || projects[i].hidden {
            let x = ProjectVisibilityConfig { gid: projects[i].id.clone(), starred: projects[i].starred, hidden: projects[i].hidden };
            let xc = chars_of(x.gid.as_str());
            let ghost cur = prefs_view(out@);
            let mut p: usize = 0;
            while p < out.len() && !chars_less(&xc, &chars_of(out[p].gid.as_str()))
                invariant
                    p <= out.len(),
                    cur == prefs_view(out@),
                    xc@ == x.gid@,
                    gid_slot(cur, x.gid@, 0) == gid_slot(cur, x.gid@, p as int),
                decreases out.len() - p,
            {
                p += 1;
            }
            out.insert(p, x);
            assert(src.take(i as int + 1).filter(keep) == src.take(i as int).filter(keep).push(src[i as int]));
            assert(src.take(i as int + 1).filter(keep).map_values(|p: ProjectView| pref_of(p))
                == before.push(pref_of(src[i as int])));
            assert(before.push(pref_of(src[i as int])).drop_last() == before);
            assert(prefs_view(out@) == cur.insert(p as int, x@));
        } else {
            assert(src.take(i as int + 1).filter(keep) == src.take(i as int).filter(keep));
        }
        i += 1;
    }
    assert(src.take(i as int) == src);
    out
}

/// Projects with the remembered choices applied.
fn apply_visibility_preferences(projects: Vec<Project>, visibility: &[ProjectVisibilityConfig]) -> (r: Vec<Project>)
    ensures
        projects_view(r@) == apply_prefs(projects_view(projects@), prefs_view(visibility@)),
{
    let ghost prefs = prefs_view(visibility@);
    let mut out: Vec<Project> = Vec::new();
    let mut i: usize = 0;
    while i < projects.len()
        invariant
            i <= projects.len(),
            prefs == prefs_view(visibility@),
            projects_view(out@) == apply_prefs(projects_view(projects@), prefs).take(i as int),
        decreases projects.len() - i,
    {
        let mut p = projects[i].clone();
        let mut j: usize = 0;
        while j < visibility.len() && visibility[j].gid != p.id
            invariant
                j <= visibility.len(),
                prefs == prefs_view(visibility@),
                pref_index_from(prefs, p.id@, 0) == pref_index_from(prefs, p.id@, j as int),
            decreases visibility.len() - j,
        {
            j += 1;
        }
        if j < visibility.len() {
            p.starred = visibility[j].starred;
            p.hidden = visibility[j].hidden;
        }
        let ghost before = out@;
        out.push(p);
        assert(projects_view(out@) == projects_view(before).push(apply_prefs(projects_view(projects@), prefs)[i as int]));
        assert(apply_prefs(projects_view(projects@), prefs).take(i as int + 1)
            == apply_prefs(projects_view(projects@), prefs).take(i as int).push(apply_prefs(projects_view(projects@), prefs)[i as int]));
        i += 1;
    }
    assert(apply_prefs(projects_view(projects@), prefs).take(i as int) == apply_prefs(projects_view(projects@), prefs));
    out
}

/// The picker with nothing loaded.
pub open spec fn empty_model() -> ListModel {
    ListModel {
        all: Seq::empty(),
        visible: Seq::empty(),
        selected_ids: Seq::empty(),
        selected: None,
        status: StatusView::Idle,
        show_hidden: false,
        show_selected_only: false,
        search_mode: SearchMode::Substring,
        query: Seq::empty(),
        search_active: false,
        search_error: None,
    }
}

/// The picker after a listing arrives: the choices applied, the projects
/// sorted and listed afresh, and the status saying whether any came.
pub open spec fn loaded(m: ListModel, ps: Seq<ProjectView>, prefs: Seq<PrefView>) -> ListModel {
    let all = sort_projects_spec(apply_prefs(ps, prefs));
    let r = rebuild(ListModel { all: all, ..m }, None);
    ListModel { status: if all.len() == 0 { StatusView::Empty } else { StatusView::Ready }, ..r }
}

/// The picker after a listing fails: nothing listed or selected, and the
/// error's text as the status.
pub open spec fn failed(m: ListModel, e: Error) -> ListModel {
    ListModel {
        all: Seq::empty(),
        visible: Seq::empty(),
        selected_ids: Seq::empty(),
        selected: None,
        status: StatusView::Error(error_text(e)),
        ..m
    }
}

/// The project picker's state.
#[derive(Debug)]
pub struct ProjectListState {
    all_projects: Vec<Project>,
    visible_projects: Vec<Project>,
    selected_ids: Vec<String>,
    selected: Option<usize>,
    status: ProjectListStatus,
    show_hidden: bool,
    show_selected_only: bool,
    search_mode: SearchMode,
    search_query: String,
    search_active: bool,
    search_error: Option<String>,
}

/// An optional string as plain values.
pub open spec fn opt_text(o: Option<String>) -> Option<Seq<char>> {
    match o {
        Some(s) => Some(s@),
        None => None,
    }
}

/// An optional row as a plain value.
pub open spec fn opt_row(o: Option<usize>) -> Option<int> {
    match o {
        Some(i) => Some(i as int),
        None => None,
    }
}

impl ProjectListState {
    /// The picker as plain values.
    pub closed spec fn model(&self) -> ListModel {
        ListModel {
            all: projects_view(self.all_projects@),
            visible: projects_view(self.visible_projects@),
            selected_ids: ids_view(self.selected_ids@),
            selected: opt_row(self.selected),
            status: self.status@,
            show_hidden: self.show_hidden,
            show_selected_only: self.show_selected_only,
            search_mode: self.search_mode,
            query: self.search_query@,
            search_active: self.search_active,
            search_error: opt_text(self.search_error),
        }
    }

    /// What always holds of the picker.
    pub open spec fn wf(&self) -> bool {
        list_wf(self.model())
    }

    /// Whether a project is listed under the current flags and search.
    fn matches(&self, p: &Project) -> (r: bool)
        ensures
            r == project_matches(self.model(), p@),
    {
        if !self.show_hidden && p.hidden {
            return false;
        }
        if self.show_selected_only && !contains_id(&self.selected_ids, &p.id) {
            return false;
        }
        let q = chars_of(self.search_query.as_str());
        if q.len() == 0 {
            return true;
        }
        let mut line = chars_of(p.name.as_str());
        line.push(' ');
        let line = concat_chars(&line, &chars_of(p.id.as_str()));
        let hay = lower_chars(&line);
        assert(hay@ == haystack(p@));
        let needle = lower_chars(&q);
        match self.search_mode {
            SearchMode::Fuzzy => fuzzy_match(&hay, &needle),
            SearchMode::Substring => substring_match(&hay, &needle),
            SearchMode::Regex => regex_search(self.search_query.as_str(), &hay),
        }
    }

    /// Works the listing out again, keeping the cursor on `previous` when
    /// it is still listed.
    fn rebuild_visible_projects(&mut self, previous: Option<String>)
        requires
            old(self).model().selected_ids.no_duplicates(),
            sorted_by(old(self).model().all, |a: ProjectView, b: ProjectView| project_leq(a, b)),
        ensures
            final(self).model() == rebuild(old(self).model(), opt_text(previous)),
            final(self).wf(),
    {
        let ghost m = self.model();
        proof { lemma_rebuild_wf(m, opt_text(previous)); }
        self.search_error = if self.search_mode == SearchMode::Regex && chars_of(self.search_query.as_str()).len() > 0 {
            regex_error(self.search_query.as_str())
        } else {
            None
        };
        let ghost f = |p: ProjectView| project_matches(m, p);
        let ghost all = m.all;
        let mut visible: Vec<Project> = Vec::new();
        let mut i: usize = 0;
        proof { reveal(Seq::filter); }
        assert(projects_view(visible@) == all.take(0).filter(f));
        while i < self.all_projects.len()
            invariant
                i <= self.all_projects.len(),
                all == projects_view(self.all_projects@),
                f == (|p: ProjectView| project_matches(m, p)),
                m.all == all,
                m.show_hidden == self.show_hidden,
                m.show_selected_only == self.show_selected_only,
                m.selected_ids == ids_view(self.selected_ids@),
                m.search_mode == self.search_mode,
                m.query == self.search_query@,
                projects_view(visible@) == all.take(i as int).filter(f),
            decreases self.all_projects.len() - i,
        {
            proof { reveal(Seq::filter); }
            assert(all.take(i as int + 1).drop_last() == all.take(i as int));
            assert(all.take(i as int + 1).last() == all[i as int]);
            let ghost before = visible@;
            if self.matches(&self.all_projects[i]) {
                visible.push(self.all_projects[i].clone());
                assert(projects_view(visible@) == projects_view(before).push(all[i as int]));
            }
            i += 1;
        }
        assert(all.take(i as int) == all);
        let previous_row = self.selected;
        self.visible_projects = visible;
        if self.visible_projects.len() == 0 {
            self.selected = None;
            return;
        }
        let vis_len = self.visible_projects.len();
        match previous {
            Some(id) => {
                match find_id(&self.visible_projects, &id) {
                    Some(j) => {
                        self.selected = Some(j);
                        return;
                    }
                    None => {}
                }
            }
            None => {}
        }
        let row: usize = match previous_row {
            Some(r) => r,
            None => 0,
        };
        self.selected = Some(if row < vis_len - 1 { row } else { vis_len - 1 });
    }
}

/// The first position of a project with this id.
fn find_id(ps: &Vec<Project>, id: &String) -> (r: Option<usize>)
    ensures
        match r {
            Some(j) => j as int == id_index_from(projects_view(ps@), id@, 0),
            None => id_index_from(projects_view(ps@), id@, 0) == -1,
        },
{
    let ghost vis = projects_view(ps@);
    let mut j: usize = 0;
    while j < ps.len()
        invariant
            j <= ps.len(),
            vis == projects_view(ps@),
            id_index_from(vis, id@, 0) == id_index_from(vis, id@, j as int),
        decreases ps.len() - j,
    {
        if ps[j].id == *id {
            return Some(j);
        }
        j += 1;
    }
    None
}

/// Whether a list of ids holds `id`.
fn contains_id(ids: &Vec<String>, id: &String) -> (r: bool)
    ensures
        r == ids_view(ids@).contains(id@),
{
    let mut i: usize = 0;
    while i < ids.len()
        invariant
            i <= ids.len(),
            forall|j: int| 0 <= j < i ==> ids@[j]@ != id@,
        decreases ids.len() - i,
    {
        if ids[i] == *id {
            assert(ids_view(ids@)[i as int] == id@);
            return true;
        }
        i += 1;
    }
    proof {
        if ids_view(ids@).contains(id@) {
            let j = choose|j: int| 0 <= j < ids_view(ids@).len() && ids_view(ids@)[j] == id@;
            assert(ids@[j]@ == id@);
        }
    }
    false
}

/// The picker with the cursor one row up, unless it is at the top.
pub open spec fn moved_up(m: ListModel) -> ListModel {
    match m.selected {
        Some(i) => if i > 0 { ListModel { selected: Some(i - 1), ..m } } else { m },
        None => m,
    }
}

/// The picker with the cursor one row down, unless it is at the bottom.
pub open spec fn moved_down(m: ListModel) -> ListModel {
    match m.selected {
        Some(i) => if i + 1 < m.visible.len() { ListModel { selected: Some(i + 1), ..m } } else { m },
        None => if m.visible.len() > 0 { ListModel { selected: Some(0), ..m } } else { m },
    }
}

/// The first position of an id, or -1.
pub open spec fn str_index_from(ids: Seq<Seq<char>>, id: Seq<char>, i: int) -> int
    decreases ids.len() - i,
{
    if i < 0 || i >= ids.len() {
        -1
    } else if ids[i] == id {
        i
    } else {
        str_index_from(ids, id, i + 1)
    }
}

/// The selected ids with `id` taken out when it is there and added when
/// it is not.
pub open spec fn toggle_id(ids: Seq<Seq<char>>, id: Seq<char>) -> Seq<Seq<char>> {
    let k = str_index_from(ids, id, 0);
    if k >= 0 { ids.remove(k) } else { ids.push(id) }
}

proof fn lemma_str_index_from(ids: Seq<Seq<char>>, id: Seq<char>, i: int)
    requires
        0 <= i <= ids.len(),
    ensures
        -1 <= str_index_from(ids, id, i) < ids.len(),
        str_index_from(ids, id, i) >= 0 ==> ids[str_index_from(ids, id, i)] == id,
        str_index_from(ids, id, i) == -1 ==> forall|j: int| i <= j < ids.len() ==> ids[j] != id,
    decreases ids.len() - i,
{
    if i < ids.len() && ids[i] != id {
        lemma_str_index_from(ids, id, i + 1);
    }
}

/// Toggling an id keeps every id selected at most once, and toggles
/// whether that id is selected.
pub proof fn lemma_toggle_id(ids: Seq<Seq<char>>, id: Seq<char>)
    requires
        ids.no_duplicates(),
    ensures
        toggle_id(ids, id).no_duplicates(),
        toggle_id(ids, id).contains(id) == !ids.contains(id),
        forall|x: Seq<char>| x != id ==> (toggle_id(ids, id).contains(x) == ids.contains(x)),
{
    lemma_str_index_from(ids, id, 0);
    let k = str_index_from(ids, id, 0);
    let t = toggle_id(ids, id);
    if k >= 0 {
        assert forall|x: Seq<char>| x != id implies (t.contains(x) == ids.contains(x)) by {
            if ids.contains(x) {
                let j = choose|j: int| 0 <= j < ids.len() && ids[j] == x;
                if j < k { assert(t[j] == x); } else { assert(j != k); assert(t[j - 1] == x); }
            }
        }
        if t.contains(id) {
            let j = choose|j: int| 0 <= j < t.len() && t[j] == id;
            if j < k { assert(ids[j] == ids[k]); } else { assert(ids[j + 1] == ids[k]); }
        }
    } else {
        assert(t[ids.len() as int] == id);
        assert forall|x: Seq<char>| x != id implies (t.contains(x) == ids.contains(x)) by {
            if t.contains(x) {
                let j = choose|j: int| 0 <= j < t.len() && t[j] == x;
                assert(ids[j] == x);
            }
            if ids.contains(x) {
                let j = choose|j: int| 0 <= j < ids.len() && ids[j] == x;
                assert(t[j] == x);
            }
        }
    }
}

/// Which flag a toggle flips.
#[derive(Clone, Copy, Debug, PartialEq, Eq, Structural)]
enum ProjectFlag {
    Starred,
    Hidden,
}

/// A project with one flag flipped.
pub open spec fn flip(p: ProjectView, starred: bool) -> ProjectView {
    if starred { (p.0, p.1, !p.2, p.3) } else { (p.0, p.1, p.2, !p.3) }
}

/// The projects with the flag of the first project with this id flipped.
pub open spec fn toggle_one(all: Seq<ProjectView>, id: Seq<char>, starred: bool) -> Seq<ProjectView> {
    let k = id_index_from(all, id, 0);
    if k >= 0 { all.update(k, flip(all[k], starred)) } else { all }
}

/// The projects with the flag flipped for each id in turn.
pub open spec fn toggle_all(all: Seq<ProjectView>, ids: Seq<Seq<char>>, starred: bool) -> Seq<ProjectView>
    decreases ids.len(),
{
    if ids.len() == 0 {
        all
    } else {
        toggle_one(toggle_all(all, ids.drop_last(), starred), ids.last(), starred)
    }
}

/// The projects a flag toggle acts on: the selection in id order, or the
/// project under the cursor when nothing is selected.
pub open spec fn action_targets(m: ListModel) -> Seq<Seq<char>> {
    if m.selected_ids.len() > 0 {
        sort_ids_spec(m.selected_ids)
    } else {
        match cursor_id(m) {
            Some(id) => seq![id],
            None => Seq::empty(),
        }
    }
}

/// The picker after flipping a flag on the targets, re-sorted and listed
/// again with the cursor kept on its project.
pub open spec fn flagged(m: ListModel, starred: bool) -> ListModel {
    let targets = action_targets(m);
    if targets.len() == 0 {
        m
    } else {
        rebuild(ListModel { all: sort_projects_spec(toggle_all(m.all, targets, starred)), ..m }, cursor_id(m))
    }
}

/// The picker after an action; the command it stands for, if any, is left
/// for the application.
pub open spec fn action_model(m: ListModel, action: Action) -> ListModel {
    match action {
        Action::MoveUp | Action::PageUp => moved_up(m),
        Action::MoveDown | Action::PageDown => moved_down(m),
        Action::ToggleHiddenGroup => rebuild(ListModel { show_hidden: !m.show_hidden, ..m }, cursor_id(m)),
        Action::ToggleSelection => match cursor_id(m) {
            Some(id) => rebuild(ListModel { selected_ids: toggle_id(m.selected_ids, id), ..m }, cursor_id(m)),
            None => m,
        },
        Action::ToggleOnlySelected => rebuild(ListModel { show_selected_only: !m.show_selected_only, ..m }, cursor_id(m)),
        Action::ToggleStarredSelected => flagged(m, true),
        Action::ToggleHiddenSelected => flagged(m, false),
        Action::StartSearch => ListModel { search_active: true, ..m },
        Action::SearchFuzzy => rebuild(ListModel { search_mode: SearchMode::Fuzzy, search_error: None, ..m }, cursor_id(m)),
        Action::SearchSubstring => rebuild(ListModel { search_mode: SearchMode::Substring, search_error: None, ..m }, cursor_id(m)),
        Action::SearchRegex => rebuild(ListModel { search_mode: SearchMode::Regex, search_error: None, ..m }, cursor_id(m)),
        _ => m,
    }
}

/// The command an action leaves for the application: none for the actions
/// the picker handles itself.
pub open spec fn action_command(action: Action) -> Option<AppCommand> {
    match action {
        Action::MoveUp | Action::PageUp | Action::MoveDown | Action::PageDown | Action::ToggleHiddenGroup
        | Action::ToggleSelection | Action::ToggleOnlySelected | Action::ToggleStarredSelected
        | Action::ToggleHiddenSelected | Action::StartSearch | Action::SearchFuzzy
        | Action::SearchSubstring | Action::SearchRegex => None,
        _ => command_of(action),
    }
}

impl ProjectListState {
    /// A picker with nothing loaded.
    pub fn new() -> (r: ProjectListState)
        ensures
            r.model() == empty_model(),
            r.wf(),
    {
        let r = ProjectListState {
            all_projects: Vec::new(),
            visible_projects: Vec::new(),
            selected_ids: Vec::new(),
            selected: None,
            status: ProjectListStatus::Idle,
            show_hidden: false,
            show_selected_only: false,
            search_mode: SearchMode::Substring,
            search_query: String::new(),
            search_active: false,
            search_error: None,
        };
        proof {
            reveal(Seq::filter);
            assert(visible_of(r.model()) == Seq::<ProjectView>::empty());
            assert(projects_view(r.all_projects@) == Seq::<ProjectView>::empty());
            assert(projects_view(r.visible_projects@) == Seq::<ProjectView>::empty());
            assert(ids_view(r.selected_ids@) == Seq::<Seq<char>>::empty());
        }
        r
    }

    /// Puts a listing in place: choices applied, sorted, listed afresh.
    fn install(&mut self, projects: Vec<Project>, visibility: &[ProjectVisibilityConfig])
        requires
            old(self).wf(),
        ensures
            final(self).model() == loaded(old(self).model(), projects_view(projects@), prefs_view(visibility@)),
            final(self).wf(),
    {
        let applied = apply_visibility_preferences(projects, visibility);
        self.all_projects = sort_projects(applied);
        self.rebuild_visible_projects(None);
        let ghost rebuilt = self.model();
        self.status = if self.all_projects.len() == 0 { ProjectListStatus::Empty } else { ProjectListStatus::Ready };
        proof { lemma_same_filter(rebuilt, self.model()); }
    }

    /// A picker over a listing.
    pub fn from_projects(projects: Vec<Project>) -> (r: ProjectListState)
        ensures
            r.model() == loaded(empty_model(), projects_view(projects@), Seq::empty()),
            r.wf(),
    {
        let none: &[ProjectVisibilityConfig] = &[];
        assert(prefs_view(none@) == Seq::<PrefView>::empty());
        Self::from_projects_with_visibility(projects, none)
    }

    /// A picker over a listing with remembered choices applied.
    pub fn from_projects_with_visibility(projects: Vec<Project>, visibility: &[ProjectVisibilityConfig]) -> (r: ProjectListState)
        ensures
            r.model() == loaded(empty_model(), projects_view(projects@), prefs_view(visibility@)),
            r.wf(),
    {
        let mut state = Self::new();
        state.install(projects, visibility);
        state
    }

    /// Takes in the answer to a listing request: the listing, or the error
    /// that came instead, which is recorded and handed back.
    pub fn receive(&mut self, listed: Result<Vec<Project>, Error>, visibility: &[ProjectVisibilityConfig]) -> (r: Result<(), Error>)
        requires
            old(self).wf(),
        ensures
            final(self).wf(),
            match listed {
                Ok(ps) => r is Ok && final(self).model() == loaded(old(self).model(), projects_view(ps@), prefs_view(visibility@)),
                Err(e) => r == Err::<(), Error>(e) && final(self).model() == failed(old(self).model(), e),
            },
    {
        self.status = ProjectListStatus::Loading;
        proof { lemma_same_filter(old(self).model(), self.model()); }
        match listed {
            Ok(projects) => {
                let ghost loading = self.model();
                self.install(projects, visibility);
                proof {
                    let all = sort_projects_spec(apply_prefs(projects_view(projects@), prefs_view(visibility@)));
                    lemma_same_filter(ListModel { all: all, ..loading }, ListModel { all: all, ..old(self).model() });
                    assert(loaded(loading, projects_view(projects@), prefs_view(visibility@))
                        =~= loaded(old(self).model(), projects_view(projects@), prefs_view(visibility@)));
                }
                Ok(())
            }
            Err(err) => {
                self.all_projects = Vec::new();
                self.visible_projects = Vec::new();
                self.selected_ids = Vec::new();
                self.selected = None;
                self.status = ProjectListStatus::Error(err.message());
                proof {
                    reveal(Seq::filter);
                    assert(visible_of(self.model()) == Seq::<ProjectView>::empty());
                }
                Err(err)
            }
        }
    }

    /// Loads the listing from the backend.
    pub fn load<C: AsanaClient>(&mut self, client: &C) -> (r: Result<(), Error>)
        requires
            old(self).wf(),
        ensures
            final(self).wf(),
            r is Ok ==> exists|ps: Seq<ProjectView>| final(self).model() == loaded(old(self).model(), ps, Seq::empty()),
            r matches Err(e) ==> final(self).model() == failed(old(self).model(), e),
    {
        let none: &[ProjectVisibilityConfig] = &[];
        assert(prefs_view(none@) == Seq::<PrefView>::empty());
        self.load_with_visibility(client, none)
    }

    /// Loads the listing from the backend and applies remembered choices.
    pub fn load_with_visibility<C: AsanaClient>(&mut self, client: &C, visibility: &[ProjectVisibilityConfig]) -> (r: Result<(), Error>)
        requires
            old(self).wf(),
        ensures
            final(self).wf(),
            r is Ok ==> exists|ps: Seq<ProjectView>| final(self).model() == loaded(old(self).model(), ps, prefs_view(visibility@)),
            r matches Err(e) ==> final(self).model() == failed(old(self).model(), e),
    {
        let listed = client.list_projects();
        let ghost answer = listed;
        let r = self.receive(listed, visibility);
        proof {
            if let Ok(ps) = answer {
                assert(final(self).model() == loaded(old(self).model(), projects_view(ps@), prefs_view(visibility@)));
            }
        }
        r
    }

    /// The listed projects, in order.
    pub fn items(&self) -> (r: &[Project])
        ensures
            projects_view(r@) == self.model().visible,
    {
        self.visible_projects.as_slice()
    }

    /// The row under the cursor.
    pub fn selected_index(&self) -> (r: Option<usize>)
        ensures
            opt_row(r) == self.model().selected,
    {
        self.selected
    }

    /// The project under the cursor.
    pub fn selected_project(&self) -> (r: Option<&Project>)
        ensures
            match r {
                Some(p) => cursor_id(self.model()) is Some && self.model().visible[self.model().selected.unwrap()] == p@,
                None => cursor_id(self.model()) is None,
            },
    {
        match self.selected {
            Some(i) => {
                if i < self.visible_projects.len() {
                    Some(&self.visible_projects[i])
                } else {
                    None
                }
            }
            None => None,
        }
    }

    /// The id of the project under the cursor.
    fn cursor(&self) -> (r: Option<String>)
        ensures
            opt_text(r) == cursor_id(self.model()),
    {
        match self.selected_project() {
            Some(p) => Some(p.id.clone()),
            None => None,
        }
    }

    /// The selected projects, in the list's order.
    pub fn selected_projects(&self) -> (r: Vec<Project>)
        ensures
            projects_view(r@) == chosen(self.model().all, self.model().selected_ids),
    {
        let mut out: Vec<Project> = Vec::new();
        let mut i: usize = 0;
        while i < self.all_projects.len()
            invariant
                i <= self.all_projects.len(),
                projects_view(out@) == chosen(projects_view(self.all_projects@.take(i as int)), self.model().selected_ids),
            decreases self.all_projects.len() - i,
        {
            let ghost before = out@;
            if self.is_selected(self.all_projects[i].id.as_str()) {
                out.push(self.all_projects[i].clone());
            }
            i += 1;
            assert(projects_view(self.all_projects@.take(i as int)).drop_last() =~= projects_view(self.all_projects@.take(i - 1)));
            assert(projects_view(out@) =~= chosen(projects_view(self.all_projects@.take(i as int)), self.model().selected_ids));
        }
        assert(self.all_projects@.take(self.all_projects.len() as int) =~= self.all_projects@);
        out
    }

    /// How many projects are selected.
    pub fn selected_count(&self) -> (r: usize)
        ensures
            r == self.model().selected_ids.len(),
    {
        self.selected_ids.len()
    }

    /// Whether a project is selected.
    pub fn is_selected(&self, project_id: &str) -> (r: bool)
        ensures
            r == self.model().selected_ids.contains(project_id@),
    {
        contains_id(&self.selected_ids, &project_id.to_string())
    }

    /// Where loading stands.
    pub fn status(&self) -> (r: &ProjectListStatus)
        ensures
            r@ == self.model().status,
    {
        &self.status
    }

    /// Whether hidden projects are listed.
    pub fn hidden_visible(&self) -> (r: bool)
        ensures
            r == self.model().show_hidden,
    {
        self.show_hidden
    }

    /// Whether only selected projects are listed.
    pub fn show_selected_only(&self) -> (r: bool)
        ensures
            r == self.model().show_selected_only,
    {
        self.show_selected_only
    }

    /// How the query is read.
    pub fn search_mode(&self) -> (r: SearchMode)
        ensures
            r == self.model().search_mode,
    {
        self.search_mode
    }

    /// The search query.
    pub fn search_query(&self) -> (r: &str)
        ensures
            r@ == self.model().query,
    {
        self.search_query.as_str()
    }

    /// Whether the query is being typed.
    pub fn search_active(&self) -> (r: bool)
        ensures
            r == self.model().search_active,
    {
        self.search_active
    }

    /// What is wrong with the query, when it is a regular expression that
    /// does not build.
    pub fn search_error(&self) -> (r: Option<&str>)
        ensures
            match r {
                Some(e) => self.model().search_error == Some(e@),
                None => self.model().search_error is None,
            },
    {
        match &self.search_error {
            Some(e) => Some(e.as_str()),
            None => None,
        }
    }

    /// How many projects are hidden, listed or not.
    pub fn hidden_count(&self) -> (r: usize)
        ensures
            r == self.model().all.filter(|p: ProjectView| p.3).len(),
    {
        let ghost all = self.model().all;
        let ghost f = |p: ProjectView| p.3;
        let mut n: usize = 0;
        let mut i: usize = 0;
        proof { reveal(Seq::filter); }
        assert(all.take(0).filter(f).len() == 0);
        while i < self.all_projects.len()
            invariant
                i <= self.all_projects.len(),
                all == projects_view(self.all_projects@),
                f == (|p: ProjectView| p.3),
                n == all.take(i as int).filter(f).len(),
                n <= i,
            decreases self.all_projects.len() - i,
        {
            proof { reveal(Seq::filter); }
            assert(all.take(i as int + 1).drop_last() == all.take(i as int));
            if self.all_projects[i].hidden {
                n += 1;
            }
            i += 1;
        }
        assert(all.take(i as int) == all);
        n
    }

    /// Moves the cursor one row up.
    pub fn move_up(&mut self)
        ensures
            final(self).model() == moved_up(old(self).model()),
            old(self).wf() ==> final(self).wf(),
    {
        match self.selected {
            Some(i) => {
                if i > 0 {
                    self.selected = Some(i - 1);
                }
            }
            None => {}
        }
        proof { lemma_same_filter(old(self).model(), self.model()); }
    }

    /// Moves the cursor one row down.
    pub fn move_down(&mut self)
        ensures
            final(self).model() == moved_down(old(self).model()),
            old(self).wf() ==> final(self).wf(),
    {
        match self.selected {
            Some(i) => {
                if self.visible_projects.len() > 0 && i < self.visible_projects.len() - 1 {
                    self.selected = Some(i + 1);
                }
            }
            None => {
                if self.visible_projects.len() > 0 {
                    self.selected = Some(0);
                }
            }
        }
        proof { lemma_same_filter(old(self).model(), self.model()); }
    }

    /// Moves the cursor a page up, which in this list is one row.
    pub fn page_up(&mut self)
        ensures
            final(self).model() == moved_up(old(self).model()),
            old(self).wf() ==> final(self).wf(),
    {
        self.move_up();
    }

    /// Moves the cursor a page down, which in this list is one row.
    pub fn page_down(&mut self)
        ensures
            final(self).model() == moved_down(old(self).model()),
            old(self).wf() ==> final(self).wf(),
    {
        self.move_down();
    }

    /// Shows or hides the hidden projects, keeping the cursor on its project.
    pub fn toggle_hidden_group(&mut self)
        requires
            old(self).wf(),
        ensures
            final(self).model() == rebuild(ListModel { show_hidden: !old(self).model().show_hidden, ..old(self).model() }, cursor_id(old(self).model())),
            final(self).wf(),
    {
        let cursor = self.cursor();
        self.show_hidden = !self.show_hidden;
        self.rebuild_visible_projects(cursor);
    }

    /// Lists only the selected projects, or all again.
    pub fn toggle_selected_only(&mut self)
        requires
            old(self).wf(),
        ensures
            final(self).model() == rebuild(ListModel { show_selected_only: !old(self).model().show_selected_only, ..old(self).model() }, cursor_id(old(self).model())),
            final(self).wf(),
    {
        let cursor = self.cursor();
        self.show_selected_only = !self.show_selected_only;
        self.rebuild_visible_projects(cursor);
    }

    /// Reads the query another way.
    pub fn set_search_mode(&mut self, mode: SearchMode)
        requires
            old(self).wf(),
        ensures
            final(self).model() == rebuild(ListModel { search_mode: mode, search_error: None, ..old(self).model() }, cursor_id(old(self).model())),
            final(self).wf(),
    {
        let cursor = self.cursor();
        self.search_mode = mode;
        self.search_error = None;
        self.rebuild_visible_projects(cursor);
    }

    /// Starts typing the query.
    pub fn start_search(&mut self)
        ensures
            final(self).model() == (ListModel { search_active: true, ..old(self).model() }),
            old(self).wf() ==> final(self).wf(),
    {
        self.search_active = true;
        proof { lemma_same_filter(old(self).model(), self.model()); }
    }

    /// Stops typing the query; the query stays in force.
    pub fn end_search(&mut self)
        ensures
            final(self).model() == (ListModel { search_active: false, ..old(self).model() }),
            old(self).wf() ==> final(self).wf(),
    {
        self.search_active = false;
        proof { lemma_same_filter(old(self).model(), self.model()); }
    }

    /// Adds a character to the query.
    pub fn push_search_char(&mut self, ch: char)
        requires
            old(self).wf(),
        ensures
            final(self).model() == rebuild(ListModel { query: old(self).model().query.push(ch), ..old(self).model() }, cursor_id(old(self).model())),
            final(self).wf(),
    {
        let cursor = self.cursor();
        push_char(&mut self.search_query, ch);
        self.rebuild_visible_projects(cursor);
    }

    /// Takes the last character off the query.
    pub fn pop_search_char(&mut self)
        requires
            old(self).wf(),
        ensures
            final(self).model() == rebuild(ListModel {
                query: if old(self).model().query.len() > 0 { old(self).model().query.drop_last() } else { old(self).model().query },
                ..old(self).model()
            }, cursor_id(old(self).model())),
            final(self).wf(),
    {
        let cursor = self.cursor();
        let q = chars_of(self.search_query.as_str());
        if q.len() > 0 {
            self.search_query = string_from_chars(&slice_chars(&q, 0, q.len() - 1));
        }
        self.rebuild_visible_projects(cursor);
    }

    /// Selects the project under the cursor, or unselects it.
    pub fn toggle_current_selection(&mut self)
        requires
            old(self).wf(),
        ensures
            final(self).wf(),
            final(self).model() == match cursor_id(old(self).model()) {
                Some(id) => rebuild(ListModel { selected_ids: toggle_id(old(self).model().selected_ids, id), ..old(self).model() }, cursor_id(old(self).model())),
                None => old(self).model(),
            },
    {
        match self.cursor() {
            Some(id) => {
                let ghost ids = self.model().selected_ids;
                proof {
                    lemma_toggle_id(ids, id@);
                    lemma_str_index_from(ids, id@, 0);
                }
                let mut k: usize = 0;
                while k < self.selected_ids.len() && self.selected_ids[k] != id
                    invariant
                        k <= self.selected_ids.len(),
                        ids == ids_view(self.selected_ids@),
                        str_index_from(ids, id@, 0) == str_index_from(ids, id@, k as int),
                    decreases self.selected_ids.len() - k,
                {
                    k += 1;
                }
                let cursor = Some(id.clone());
                if k < self.selected_ids.len() {
                    self.selected_ids.remove(k);
                    assert(ids_view(self.selected_ids@) == ids.remove(k as int));
                } else {
                    self.selected_ids.push(id);
                    assert(ids_view(self.selected_ids@) == ids.push(id@));
                }
                self.rebuild_visible_projects(cursor);
            }
            None => {}
        }
    }

    /// The ids a flag toggle acts on.
    fn action_target_ids(&self) -> (r: Vec<String>)
        ensures
            ids_view(r@) == action_targets(self.model()),
    {
        if self.selected_ids.len() > 0 {
            sort_ids(&self.selected_ids)
        } else {
            match self.cursor() {
                Some(id) => {
                    let mut v: Vec<String> = Vec::new();
                    v.push(id);
                    assert(ids_view(v@) == seq![cursor_id(self.model()).unwrap()]);
                    v
                }
                None => {
                    let v: Vec<String> = Vec::new();
                    assert(ids_view(v@) == Seq::<Seq<char>>::empty());
                    v
                }
            }
        }
    }

    /// Flips a flag on the selected projects, or on the one under the cursor.
    fn toggle_project_flags(&mut self, flag: ProjectFlag)
        requires
            old(self).wf(),
        ensures
            final(self).model() == flagged(old(self).model(), flag == ProjectFlag::Starred),
            final(self).wf(),
    {
        let targets = self.action_target_ids();
        if targets.len() == 0 {
            return;
        }
        let ghost starred = flag == ProjectFlag::Starred;
        let ghost start = self.model().all;
        let ghost ts = ids_view(targets@);
        let cursor = self.cursor();
        let mut all: Vec<Project> = Vec::new();
        std::mem::swap(&mut all, &mut self.all_projects);
        let mut i: usize = 0;
        assert(ts.take(0) == Seq::<Seq<char>>::empty());
        while i < targets.len()
            invariant
                i <= targets.len(),
                ts == ids_view(targets@),
                projects_view(all@) == toggle_all(start, ts.take(i as int), starred),
                starred == (flag == ProjectFlag::Starred),
            decreases targets.len() - i,
        {
            assert(ts.take(i as int + 1).drop_last() == ts.take(i as int));
            assert(ts.take(i as int + 1).last() == ts[i as int]);
            let ghost before = projects_view(all@);
            proof { lemma_id_index_from(before, ts[i as int], 0); }
            match find_id(&all, &targets[i]) {
                Some(k) => {
                    let mut p = all[k].clone();
                    match flag {
                        ProjectFlag::Starred => { p.starred = !p.starred; }
                        ProjectFlag::Hidden => { p.hidden = !p.hidden; }
                    }
                    all.set(k, p);
                    assert(projects_view(all@) == before.update(k as int, flip(before[k as int], starred)));
                }
                None => {}
            }
            i += 1;
        }
        assert(ts.take(i as int) == ts);
        self.all_projects = sort_projects(all);
        self.rebuild_visible_projects(cursor);
    }

    /// Stars or unstars the selected projects, or the one under the cursor.
    pub fn toggle_starred_selected(&mut self)
        requires
            old(self).wf(),
        ensures
            final(self).model() == flagged(old(self).model(), true),
            final(self).wf(),
    {
        self.toggle_project_flags(ProjectFlag::Starred);
    }

    /// Hides or shows the selected projects, or the one under the cursor.
    pub fn toggle_hidden_selected(&mut self)
        requires
            old(self).wf(),
        ensures
            final(self).model() == flagged(old(self).model(), false),
            final(self).wf(),
    {
        self.toggle_project_flags(ProjectFlag::Hidden);
    }

    /// Carries out an action; the command it stands for, if the picker does
    /// not handle it, is handed back.
    pub fn apply_action(&mut self, action: &Action) -> (r: Option<AppCommand>)
        requires
            old(self).wf(),
        ensures
            final(self).model() == action_model(old(self).model(), *action),
            r == action_command(*action),
            final(self).wf(),
    {
        match action {
            Action::MoveUp => { self.move_up(); None }
            Action::MoveDown => { self.move_down(); None }
            Action::PageUp => { self.page_up(); None }
            Action::PageDown => { self.page_down(); None }
            Action::ToggleHiddenGroup => { self.toggle_hidden_group(); None }
            Action::ToggleSelection => { self.toggle_current_selection(); None }
            Action::ToggleOnlySelected => { self.toggle_selected_only(); None }
            Action::ToggleStarredSelected => { self.toggle_starred_selected(); None }
            Action::ToggleHiddenSelected => { self.toggle_hidden_selected(); None }
            Action::StartSearch => { self.start_search(); None }
            Action::SearchFuzzy => { self.set_search_mode(SearchMode::Fuzzy); None }
            Action::SearchSubstring => { self.set_search_mode(SearchMode::Substring); None }
            Action::SearchRegex => { self.set_search_mode(SearchMode::Regex); None }
            other => other.as_app_command(),
        }
    }

    /// The choices to remember: every starred or hidden project, by id.
    pub fn visibility_preferences(&self) -> (r: Vec<ProjectVisibilityConfig>)
        ensures
            prefs_view(r@) == preferences_of(self.model().all),
    {
        preferences(&self.all_projects)
    }
}

/// Every element kept by a filter comes from the sequence filtered.
proof fn lemma_filter_from(s: Seq<ProjectView>, pred: spec_fn(ProjectView) -> bool, i: int)
    requires
        0 <= i < s.filter(pred).len(),
    ensures
        s.contains(s.filter(pred)[i]),
    decreases s.len(),
{
    reveal(Seq::filter);
    if s.len() > 0 {
        let f = s.drop_last().filter(pred);
        if i < f.len() {
            lemma_filter_from(s.drop_last(), pred, i);
            let k = choose|k: int| 0 <= k < s.drop_last().len() && s.drop_last()[k] == f[i];
            assert(s[k] == s.filter(pred)[i]);
        } else {
            assert(s.filter(pred)[i] == s[s.len() - 1]);
        }
    }
}

/// Keeping only some elements of a sorted sequence leaves it sorted.
proof fn lemma_filter_sorted(s: Seq<ProjectView>, pred: spec_fn(ProjectView) -> bool)
    requires
        sorted_by(s, |a: ProjectView, b: ProjectView| project_leq(a, b)),
    ensures
        sorted_by(s.filter(pred), |a: ProjectView, b: ProjectView| project_leq(a, b)),
    decreases s.len(),
{
    reveal(Seq::filter);
    let leq = |a: ProjectView, b: ProjectView| project_leq(a, b);
    if s.len() > 0 {
        let init = s.drop_last();
        assert(sorted_by(init, leq)) by {
            assert forall|i: int, j: int| 0 <= i < j < init.len() implies #[trigger] leq(init[i], init[j]) by {
                assert(leq(s[i], s[j]));
            }
        }
        lemma_filter_sorted(init, pred);
        let f = init.filter(pred);
        if pred(s.last()) {
            let t = f.push(s.last());
            assert forall|i: int, j: int| 0 <= i < j < t.len() implies #[trigger] leq(t[i], t[j]) by {
                if j == f.len() {
                    lemma_filter_from(init, pred, i);
                    assert(init.contains(f[i]));
                    let k = choose|k: int| 0 <= k < init.len() && init[k] == f[i];
                    assert(leq(s[k], s[s.len() - 1]));
                } else {
                    assert(leq(f[i], f[j]));
                }
            }
        }
    }
}

/// The listing is always in listing order: shown projects before hidden
/// ones, starred before unstarred, then by name and id.
pub proof fn lemma_listing_sorted(m: ListModel)
    requires
        list_wf(m),
    ensures
        sorted_by(m.visible, |a: ProjectView, b: ProjectView| project_leq(a, b)),
{
    lemma_filter_sorted(m.all, |p: ProjectView| project_matches(m, p));
}

/// Every listed project passes the filters: it is not hidden unless the
/// hidden group is shown, it is selected when only the selection is
/// shown, and the search matches it.
pub proof fn lemma_listing_matches(m: ListModel, i: int)
    requires
        list_wf(m),
        0 <= i < m.visible.len(),
    ensures
        m.show_hidden || !m.visible[i].3,
        !m.show_selected_only || m.selected_ids.contains(m.visible[i].0),
        search_matches(m.search_mode, m.query, m.visible[i]),
{
    m.all.lemma_filter_pred(|p: ProjectView| project_matches(m, p), i);
}

/// Toggling the same project's selection twice leaves the same projects
/// selected.
pub proof fn lemma_toggle_twice(ids: Seq<Seq<char>>, id: Seq<char>, other: Seq<char>)
    requires
        ids.no_duplicates(),
    ensures
        toggle_id(toggle_id(ids, id), id).contains(other) == ids.contains(other),
{
    lemma_toggle_id(ids, id);
    lemma_toggle_id(toggle_id(ids, id), id);
}

} // verus!
