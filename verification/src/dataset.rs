//! A dataset built from what was fetched for the selected projects: each
//! project's sections, the custom fields it declares and its task trees,
//! walked in the order fetched. The fetching itself is the caller's.

use vstd::prelude::*;
use vstd::relations::{sorted_by, total_ordering};
use crate::order::{chars_le, chars_less, chars_lt, lemma_lt_asymmetric, lemma_lt_connected, lemma_lt_transitive};
use crate::records::{CustomFieldDefinition, FetchedTask, RecordView, Section, TaskDataset, TaskRecord, defs_view, opt_text, record_for, record_list, record_of};
use crate::text::{chars_of, eq_chars};

verus! {

/// Definitions in the order the panel and the table read them: by name,
/// then by id.
pub open spec fn def_leq(a: (Seq<char>, Seq<char>), b: (Seq<char>, Seq<char>)) -> bool {
    chars_lt(a.1, b.1) || (a.1 == b.1 && chars_le(a.0, b.0))
}

/// Whether a definition of field `gid` is among `d`.
pub open spec fn has_gid(d: Seq<(Seq<char>, Seq<char>)>, gid: Seq<char>) -> bool {
    exists|k: int| 0 <= k < d.len() && (#[trigger] d[k]).0 == gid
}

/// The first definition of each field id, in the order they come.
pub open spec fn first_by_gid(d: Seq<(Seq<char>, Seq<char>)>) -> Seq<(Seq<char>, Seq<char>)>
    decreases d.len(),
{
    if d.len() == 0 {
        Seq::empty()
    } else {
        let r = first_by_gid(d.drop_last());
        if has_gid(r, d.last().0) { r } else { r.push(d.last()) }
    }
}

/// The definitions a dataset keeps: the first of each id, by name then id.
pub open spec fn merged_definitions(d: Seq<(Seq<char>, Seq<char>)>) -> Seq<(Seq<char>, Seq<char>)> {
    first_by_gid(d).sort_by(|a: (Seq<char>, Seq<char>), b: (Seq<char>, Seq<char>)| def_leq(a, b))
}

/// Ordering definitions by name then id is a total order.
pub proof fn lemma_def_leq_total()
    ensures
        total_ordering(|a: (Seq<char>, Seq<char>), b: (Seq<char>, Seq<char>)| def_leq(a, b)),
{
    let leq = |a: (Seq<char>, Seq<char>), b: (Seq<char>, Seq<char>)| def_leq(a, b);
    assert forall|x: (Seq<char>, Seq<char>)| #[trigger] leq(x, x) by {}
    assert forall|x: (Seq<char>, Seq<char>), y: (Seq<char>, Seq<char>)| #[trigger] leq(x, y) && #[trigger] leq(y, x)
        implies x == y by {
        lemma_lt_asymmetric(x.1, y.1);
        lemma_lt_asymmetric(x.0, y.0);
    }
    assert forall|x: (Seq<char>, Seq<char>), y: (Seq<char>, Seq<char>), z: (Seq<char>, Seq<char>)|
        #[trigger] leq(x, y) && #[trigger] leq(y, z) implies leq(x, z) by {
        lemma_lt_asymmetric(x.1, y.1);
        lemma_lt_asymmetric(y.1, z.1);
        lemma_lt_asymmetric(x.0, y.0);
        lemma_lt_asymmetric(y.0, z.0);
        if chars_lt(x.1, y.1) && chars_lt(y.1, z.1) {
            lemma_lt_transitive(x.1, y.1, z.1);
        }
        if x.1 == y.1 && y.1 == z.1 && x.0 != y.0 && y.0 != z.0 {
            lemma_lt_transitive(x.0, y.0, z.0);
        }
    }
    assert forall|x: (Seq<char>, Seq<char>), y: (Seq<char>, Seq<char>)| #[trigger] leq(x, y) || #[trigger] leq(y, x) by {
        lemma_lt_connected(x.1, y.1);
        lemma_lt_connected(x.0, y.0);
    }
}

/// Whether one definition sorts no later than another.
fn def_le(a: &CustomFieldDefinition, b: &CustomFieldDefinition) -> (r: bool)
    ensures
        r == def_leq((a.gid@, a.name@), (b.gid@, b.name@)),
{
    let an = chars_of(a.name.as_str());
    let bn = chars_of(b.name.as_str());
    proof { lemma_lt_asymmetric(a.name@, b.name@); }
    if !eq_chars(&an, &bn) {
        chars_less(&an, &bn)
    } else {
        let ai = chars_of(a.gid.as_str());
        let bi = chars_of(b.gid.as_str());
        eq_chars(&ai, &bi) || chars_less(&ai, &bi)
    }
}

/// Whether a definition of field `gid` is among `d`.
fn holds_gid(d: &Vec<CustomFieldDefinition>, gid: &String) -> (r: bool)
    ensures
        r == has_gid(defs_view(d@), gid@),
{
    let mut i: usize = 0;
    while i < d.len()
        invariant
            i <= d@.len(),
            forall|k: int| 0 <= k < i ==> (#[trigger] defs_view(d@)[k]).0 != gid@,
        decreases d.len() - i,
    {
        if d[i].gid == *gid {
            assert(defs_view(d@)[i as int].0 == gid@);
            return true;
        }
        i += 1;
    }
    false
}

/// What the merge keeps holds each field id once.
proof fn lemma_first_by_gid_unique(d: Seq<(Seq<char>, Seq<char>)>)
    ensures
        forall|i: int, j: int| 0 <= i < j < first_by_gid(d).len()
            ==> (#[trigger] first_by_gid(d)[i]).0 != (#[trigger] first_by_gid(d)[j]).0,
    decreases d.len(),
{
    if d.len() > 0 {
        lemma_first_by_gid_unique(d.drop_last());
        let r = first_by_gid(d.drop_last());
        if !has_gid(r, d.last().0) {
            let s = r.push(d.last());
            assert forall|i: int, j: int| 0 <= i < j < s.len() implies (#[trigger] s[i]).0 != (#[trigger] s[j]).0 by {
                if j == r.len() {
                    assert(s[i] == r[i]);
                    if r[i].0 == d.last().0 {
                        assert(has_gid(r, d.last().0));
                    }
                }
            };
        }
    }
}

/// The custom-field definitions a dataset keeps: the first definition of
/// each field id, ordered by name and then by id.
pub fn merge_definitions(all: &Vec<CustomFieldDefinition>) -> (r: Vec<CustomFieldDefinition>)
    ensures
        defs_view(r@) == merged_definitions(defs_view(all@)),
        forall|i: int, j: int| 0 <= i < j < r@.len() ==> (#[trigger] r@[i]).gid@ != (#[trigger] r@[j]).gid@,
        sorted_by(defs_view(r@), |a: (Seq<char>, Seq<char>), b: (Seq<char>, Seq<char>)| def_leq(a, b)),
{
    let ghost leq = |a: (Seq<char>, Seq<char>), b: (Seq<char>, Seq<char>)| def_leq(a, b);
    let ghost src = defs_view(all@);
    proof { lemma_def_leq_total(); }
    let mut out: Vec<CustomFieldDefinition> = Vec::new();
    let mut i: usize = 0;
    assert(defs_view(out@) =~= Seq::<(Seq<char>, Seq<char>)>::empty());
    assert(src.take(0) =~= Seq::<(Seq<char>, Seq<char>)>::empty());
    while i < all.len()
        invariant
            i <= all@.len(),
            src == defs_view(all@),
            leq == (|a: (Seq<char>, Seq<char>), b: (Seq<char>, Seq<char>)| def_leq(a, b)),
            total_ordering(leq),
            sorted_by(defs_view(out@), leq),
            defs_view(out@).to_multiset() == first_by_gid(src.take(i as int)).to_multiset(),
        decreases all.len() - i,
    {
        let ghost kept = first_by_gid(src.take(i as int));
        assert(src.take(i as int + 1).drop_last() =~= src.take(i as int));
        assert(src.take(i as int + 1).last() == src[i as int]);
        assert(src[i as int] == (all@[i as int].gid@, all@[i as int].name@));
        let ghost ov = defs_view(out@);
        proof {
            ov.to_multiset_ensures();
            kept.to_multiset_ensures();
            // Holding the same things, the two hold the same ids.
            assert forall|g: Seq<char>| has_gid(ov, g) == has_gid(kept, g) by {
                if has_gid(ov, g) {
                    let k = choose|k: int| 0 <= k < ov.len() && (#[trigger] ov[k]).0 == g;
                    assert(ov.to_multiset().count(ov[k]) > 0);
                    assert(kept.to_multiset().contains(ov[k]));
                    let w = choose|w: int| 0 <= w < kept.len() && kept[w] == ov[k];
                    assert(kept[w].0 == g);
                }
                if has_gid(kept, g) {
                    let k = choose|k: int| 0 <= k < kept.len() && (#[trigger] kept[k]).0 == g;
                    assert(kept.to_multiset().count(kept[k]) > 0);
                    assert(ov.to_multiset().contains(kept[k]));
                    let w = choose|w: int| 0 <= w < ov.len() && ov[w] == kept[k];
                    assert(ov[w].0 == g);
                }
            };
        }
        if !holds_gid(&out, &all[i].gid) {
            let x = CustomFieldDefinition { gid: all[i].gid.clone(), name: all[i].name.clone() };
            let mut p: usize = 0;
            while p < out.len() && def_le(&out[p], &x)
                invariant
                    p <= out@.len(),
                    leq == (|a: (Seq<char>, Seq<char>), b: (Seq<char>, Seq<char>)| def_leq(a, b)),
                    forall|j: int| 0 <= j < p ==> #[trigger] leq(defs_view(out@)[j], (x.gid@, x.name@)),
                decreases out.len() - p,
            {
                p += 1;
            }
            let ghost before = defs_view(out@);
            let ghost xv = (x.gid@, x.name@);
            proof {
                if p < out.len() {
                    assert(!leq(before[p as int], xv));
                    assert(leq(before[p as int], xv) || leq(xv, before[p as int]));
                }
                crate::project_list::lemma_insert_sorted(before, xv, p as int, leq);
                vstd::seq_lib::to_multiset_insert(before, p as int, xv);
                vstd::seq_lib::to_multiset_build(kept, xv);
            }
            out.insert(p, x);
            assert(defs_view(out@) =~= before.insert(p as int, xv));
        }
        i += 1;
    }
    proof {
        assert(src.take(i as int) =~= src);
        let kept = first_by_gid(src);
        kept.lemma_sort_by_ensures(leq);
        vstd::seq_lib::lemma_sorted_unique(defs_view(out@), kept.sort_by(leq), leq);
        lemma_first_by_gid_unique(src);
        let ov = defs_view(out@);
        assert forall|i: int, j: int| 0 <= i < j < out@.len() implies (#[trigger] out@[i]).gid@ != (#[trigger] out@[j]).gid@ by {
            assert(ov[i].0 == out@[i].gid@);
            assert(ov[j].0 == out@[j].gid@);
            if ov[i].0 == ov[j].0 {
                // Both are kept; kept holds each id once, and a multiset
                // with the same items cannot hold it twice either.
                lemma_unique_gids_multiset(kept, ov, i, j);
            }
        };
    }
    out
}

/// A list holding the same items as one with each id once holds each id
/// once too.
proof fn lemma_unique_gids_multiset(
    kept: Seq<(Seq<char>, Seq<char>)>,
    ov: Seq<(Seq<char>, Seq<char>)>,
    i: int,
    j: int,
)
    requires
        forall|a: int, b: int| 0 <= a < b < kept.len() ==> (#[trigger] kept[a]).0 != (#[trigger] kept[b]).0,
        ov.to_multiset() == kept.to_multiset(),
        0 <= i < j < ov.len(),
    ensures
        ov[i].0 != ov[j].0,
{
    assert(kept.no_duplicates()) by {
        assert forall|a: int, b: int| 0 <= a < kept.len() && 0 <= b < kept.len() && a != b implies kept[a] != kept[b] by {
            if a < b {
                assert(kept[a].0 != kept[b].0);
            } else {
                assert(kept[b].0 != kept[a].0);
            }
        };
    };
    kept.lemma_multiset_has_no_duplicates();
    kept.to_multiset_ensures();
    ov.to_multiset_ensures();
    ov.lemma_multiset_has_no_duplicates_conv();
    if ov[i].0 == ov[j].0 {
        assert(ov.to_multiset().count(ov[i]) > 0);
        assert(ov.to_multiset().count(ov[j]) > 0);
        assert(kept.to_multiset().contains(ov[i]));
        assert(kept.to_multiset().contains(ov[j]));
        assert(kept.contains(ov[i]));
        assert(kept.contains(ov[j]));
        let a = choose|a: int| 0 <= a < kept.len() && kept[a] == ov[i];
        let b = choose|b: int| 0 <= b < kept.len() && kept[b] == ov[j];
        if a != b {
            if a < b {
                assert(kept[a].0 != kept[b].0);
            } else {
                assert(kept[b].0 != kept[a].0);
            }
        }
        assert(ov[i] == ov[j]);
    }
}

/// Where a task reached through the assigned-to-me row belongs: the
/// project it (or its nearest ancestor in a project) sits in, and the
/// section there.
#[derive(Debug)]
pub struct Placement {
    pub project_gid: String,
    pub project: String,
    pub section: Option<String>,
}

/// One task of a fetched tree, in the order the tree is walked: a task,
/// then each of its subtasks with theirs. `depth` is 0 for a task fetched
/// with the project and one more for each level of subtask; `placement` is
/// read for a task at depth 0 only.
#[derive(Debug)]
pub struct FetchedNode {
    pub task: FetchedTask,
    pub depth: usize,
    pub placement: Option<Placement>,
}

/// What was fetched for one project: its id and name, its sections in
/// order, the custom fields it declares, and its task trees.
#[derive(Debug)]
pub struct FetchedProject {
    pub id: String,
    pub name: String,
    pub sections: Vec<Section>,
    pub fields: Vec<CustomFieldDefinition>,
    pub nodes: Vec<FetchedNode>,
}

/// Whether walked nodes form trees: the first is at depth 0, and each is at
/// most one level below the one before.
pub open spec fn nodes_wf(nodes: Seq<FetchedNode>) -> bool {
    forall|i: int| 0 <= i < nodes.len() ==> (#[trigger] nodes[i]).depth <= if i == 0 { 0 } else { nodes[i - 1].depth + 1 }
}

/// What a task passes down to its subtasks: the project it is filed under,
/// its section and the section's place, and its id.
pub struct Frame {
    pub target: Seq<char>,
    pub project: Seq<char>,
    pub section: Option<Seq<char>>,
    pub order: Option<int>,
    pub gid: Seq<char>,
}

/// The place after `o` in the order fetched, held at the largest machine
/// index.
pub open spec fn next_place(o: int) -> int {
    if o == usize::MAX { usize::MAX as int } else { o + 1 }
}

/// The records a project's walked nodes become, the frames of the tasks
/// open at the end, and the next place in the order fetched.
pub open spec fn walk(
    id: Seq<char>,
    name: Seq<char>,
    sections: Seq<Section>,
    nodes: Seq<FetchedNode>,
    order: int,
) -> (Seq<RecordView>, Seq<Frame>, int)
    decreases nodes.len(),
{
    if nodes.len() == 0 {
        (Seq::empty(), Seq::empty(), order)
    } else {
        let (rs, st, o) = walk(id, name, sections, nodes.drop_last(), order);
        let n = nodes.last();
        let d = n.depth as int;
        let root = d == 0;
        let target = if root {
            match n.placement { Some(pl) => pl.project_gid@, None => id }
        } else { st[d - 1].target };
        let project = if root {
            match n.placement { Some(pl) => pl.project@, None => name }
        } else { st[d - 1].project };
        let section = if root {
            match n.placement { Some(pl) => opt_text(pl.section), None => None }
        } else { st[d - 1].section };
        let section_order = if root { None } else { st[d - 1].order };
        let parent = if root { None } else { Some(st[d - 1].gid) };
        let rec = record_of(target, project, sections, section, section_order, parent, d, o, n.task);
        let frame = Frame {
            target,
            project,
            section: if rec.sections.len() > 0 { Some(rec.sections[0]) } else { None },
            order: rec.section_order,
            gid: rec.gid,
        };
        (rs.push(rec), st.take(d).push(frame), next_place(o))
    }
}

/// A frame as the walk keeps it.
struct ExecFrame {
    target: String,
    project: String,
    section: Option<String>,
    order: Option<usize>,
    gid: String,
}

spec fn frames_view(f: Seq<ExecFrame>) -> Seq<Frame> {
    f.map_values(|x: ExecFrame| Frame {
        target: x.target@,
        project: x.project@,
        section: opt_text(x.section),
        order: match x.order { Some(o) => Some(o as int), None => None },
        gid: x.gid@,
    })
}

/// A copy of an optional text.
fn copy_opt(o: &Option<String>) -> (r: Option<String>)
    ensures
        opt_text(r) == opt_text(*o),
{
    match o {
        Some(t) => Some(t.clone()),
        None => None,
    }
}

/// Appends the records a project's walked nodes become to `out`, numbered
/// on from `order`; hands back the next place.
fn walk_project(project: &FetchedProject, order: usize, out: &mut Vec<TaskRecord>) -> (r: usize)
    requires
        nodes_wf(project.nodes@),
    ensures
        record_list(final(out)@) == record_list(old(out)@)
            + walk(project.id@, project.name@, project.sections@, project.nodes@, order as int).0,
        r == walk(project.id@, project.name@, project.sections@, project.nodes@, order as int).2,
{
    let ghost start = record_list(out@);
    let nodes = &project.nodes;
    let mut stack: Vec<ExecFrame> = Vec::new();
    let mut next = order;
    let mut i: usize = 0;
    assert(nodes@.take(0) =~= Seq::<FetchedNode>::empty());
    assert(frames_view(stack@) =~= Seq::<Frame>::empty());
    assert(record_list(out@) =~= start + Seq::<RecordView>::empty());
    while i < nodes.len()
        invariant
            i <= nodes@.len(),
            nodes_wf(nodes@),
            nodes == &project.nodes,
            ({
                let w = walk(project.id@, project.name@, project.sections@, nodes@.take(i as int), order as int);
                &&& record_list(out@) == start + w.0
                &&& frames_view(stack@) == w.1
                &&& next == w.2
            }),
            stack@.len() == if i == 0 { 0 } else { nodes@[i - 1].depth + 1 },
        decreases nodes.len() - i,
    {
        let ghost prefix = nodes@.take(i as int);
        let ghost longer = nodes@.take(i as int + 1);
        assert(longer.drop_last() =~= prefix);
        assert(longer.last() == nodes@[i as int]);
        let n = &nodes[i];
        let d = n.depth;
        assert(d <= stack@.len());
        let ghost st = frames_view(stack@);
        let (target, project_name, section, section_order, parent) = if d == 0 {
            match &n.placement {
                Some(pl) => (pl.project_gid.clone(), pl.project.clone(), copy_opt(&pl.section), None, None),
                None => (project.id.clone(), project.name.clone(), None, None, None),
            }
        } else {
            let f = &stack[d - 1];
            assert(st[d - 1] == frames_view(stack@)[d - 1]);
            (f.target.clone(), f.project.clone(), copy_opt(&f.section), f.order, Some(f.gid.clone()))
        };
        let (record, after) = record_for(
            target.as_str(), project_name.as_str(), project.sections.as_slice(),
            section, section_order, parent, d, next, &n.task,
        );
        let frame = ExecFrame {
            target,
            project: project_name,
            section: if record.sections.len() > 0 { Some(record.sections[0].clone()) } else { None },
            order: record.section_order,
            gid: record.gid.clone(),
        };
        let ghost before_out = record_list(out@);
        let ghost rv = record@;
        out.push(record);
        assert(record_list(out@) =~= before_out.push(rv));
        stack.truncate(d);
        let ghost kept = frames_view(stack@);
        assert(kept =~= st.take(d as int));
        stack.push(frame);
        assert(frames_view(stack@) =~= st.take(d as int).push(frames_view(stack@).last()));
        next = after;
        i += 1;
    }
    assert(nodes@.take(i as int) =~= nodes@);
    next
}

/// The records every project's nodes become, one project after another,
/// numbered on from `order` across them; and the next place.
pub open spec fn project_records(ps: Seq<FetchedProject>, order: int) -> (Seq<RecordView>, int)
    decreases ps.len(),
{
    if ps.len() == 0 {
        (Seq::empty(), order)
    } else {
        let (rs, o) = project_records(ps.drop_last(), order);
        let p = ps.last();
        let w = walk(p.id@, p.name@, p.sections@, p.nodes@, o);
        (rs + w.0, w.2)
    }
}

/// Every project's custom-field declarations, one project after another.
pub open spec fn all_fields(ps: Seq<FetchedProject>) -> Seq<(Seq<char>, Seq<char>)>
    decreases ps.len(),
{
    if ps.len() == 0 {
        Seq::empty()
    } else {
        all_fields(ps.drop_last()) + defs_view(ps.last().fields@)
    }
}

/// The dataset what was fetched for the projects makes: every task, and
/// every subtask after its parent, as a record filed under its project (or
/// where its placement puts it), numbered in the order fetched across the
/// projects; and the first definition of each custom field, each id once,
/// ordered by name and then id.
pub fn dataset_from_fetched(projects: &Vec<FetchedProject>) -> (d: TaskDataset)
    requires
        forall|i: int| 0 <= i < projects@.len() ==> nodes_wf(#[trigger] projects@[i].nodes@),
    ensures
        record_list(d.records@) == project_records(projects@, 0).0,
        defs_view(d.custom_field_definitions@) == merged_definitions(all_fields(projects@)),
        forall|i: int, j: int| 0 <= i < j < d.custom_field_definitions@.len()
            ==> (#[trigger] d.custom_field_definitions@[i]).gid@ != (#[trigger] d.custom_field_definitions@[j]).gid@,
        sorted_by(defs_view(d.custom_field_definitions@), |a: (Seq<char>, Seq<char>), b: (Seq<char>, Seq<char>)| def_leq(a, b)),
{
    let mut records: Vec<TaskRecord> = Vec::new();
    let mut fields: Vec<CustomFieldDefinition> = Vec::new();
    let mut order: usize = 0;
    let mut i: usize = 0;
    assert(projects@.take(0) =~= Seq::<FetchedProject>::empty());
    assert(record_list(records@) =~= Seq::<RecordView>::empty());
    assert(defs_view(fields@) =~= Seq::<(Seq<char>, Seq<char>)>::empty());
    while i < projects.len()
        invariant
            i <= projects@.len(),
            forall|k: int| 0 <= k < projects@.len() ==> nodes_wf(#[trigger] projects@[k].nodes@),
            record_list(records@) == project_records(projects@.take(i as int), 0).0,
            order == project_records(projects@.take(i as int), 0).1,
            defs_view(fields@) == all_fields(projects@.take(i as int)),
        decreases projects.len() - i,
    {
        let ghost prefix = projects@.take(i as int);
        assert(projects@.take(i as int + 1).drop_last() =~= prefix);
        assert(projects@.take(i as int + 1).last() == projects@[i as int]);
        let p = &projects[i];
        assert(nodes_wf(projects@[i as int].nodes@));
        order = walk_project(p, order, &mut records);
        let mut k: usize = 0;
        let ghost before = defs_view(fields@);
        while k < p.fields.len()
            invariant
                k <= p.fields@.len(),
                defs_view(fields@) == before + defs_view(p.fields@).take(k as int),
            decreases p.fields.len() - k,
        {
            let f = CustomFieldDefinition { gid: p.fields[k].gid.clone(), name: p.fields[k].name.clone() };
            let ghost prev = defs_view(fields@);
            fields.push(f);
            assert(defs_view(fields@) =~= prev.push(defs_view(p.fields@)[k as int]));
            assert(defs_view(p.fields@).take(k as int + 1) =~= defs_view(p.fields@).take(k as int).push(defs_view(p.fields@)[k as int]));
            k += 1;
        }
        assert(defs_view(p.fields@).take(k as int) =~= defs_view(p.fields@));
        i += 1;
    }
    assert(projects@.take(i as int) =~= projects@);
    let definitions = merge_definitions(&fields);
    TaskDataset { records, custom_field_definitions: definitions }
}

} // verus!
