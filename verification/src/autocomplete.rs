//! Completion over a closed set of names, for the fields that hold references.
//!
//! One buffer, a list of picked items and a list of candidates. Candidates
//! are supplied, never fetched; nothing is entered that is not a candidate;
//! and the value is a list, capped at `max_items`.

use vstd::prelude::*;
use crate::text::{
    chars_of, concat_chars, contains_chars, contains_seq, eq_chars, lower, lower_chars, starts_with_chars,
    starts_with_seq, string_from_chars, trim, trim_chars,
};
use crate::text_edit::TextEdit;

verus! {

/// What separates two items when the list is rendered as one string.
pub open spec fn item_separator() -> Seq<char> {
    seq![',', ' ']
}

/// A candidate as plain values: its handle and its display name.
pub type CandidateView = (Seq<char>, Seq<char>);

/// One thing that can be picked: what to show, and what to send.
#[derive(Debug, PartialEq, Eq)]
pub struct Candidate {
    pub handle: String,
    pub display: String,
}

impl DeepView for Candidate {
    type V = CandidateView;

    open spec fn deep_view(&self) -> CandidateView {
        (self.handle@, self.display@)
    }
}

impl Clone for Candidate {
    fn clone(&self) -> (r: Self)
        ensures
            r.deep_view() == self.deep_view(),
    {
        Candidate { handle: self.handle.clone(), display: self.display.clone() }
    }
}

impl Candidate {
    pub fn new(handle: &str, display: &str) -> (r: Candidate)
        ensures
            r.deep_view() == (handle@, display@),
    {
        Candidate { handle: handle.to_owned(), display: display.to_owned() }
    }
}

/// Why a commit could not resolve the text still in the buffer.
#[derive(Clone, Debug, PartialEq, Eq)]
pub enum Unresolved {
    /// The text matches no candidate at all.
    Unknown(String),
    /// It matches several, and picking one would be a guess.
    Ambiguous(String),
}

/// The abstract state of a completion editor.
pub struct AutocompleteModel {
    pub items: Seq<CandidateView>,
    pub buffer: (Seq<char>, int),
    pub item_caret: int,
    pub candidates: Seq<CandidateView>,
    pub cycle: Option<(Seq<char>, int)>,
    pub max_items: int,
}

/// Whether a handle is among the picked items.
pub open spec fn picked(items: Seq<CandidateView>, handle: Seq<char>) -> bool {
    exists|i: int| 0 <= i < items.len() && (#[trigger] items[i]).0 == handle
}

/// Whether a candidate is offered for a needle: not picked yet, and
/// containing the needle.
pub open spec fn eligible(items: Seq<CandidateView>, c: CandidateView, needle: Seq<char>) -> bool {
    !picked(items, c.0) && (needle.len() == 0 || contains_seq(lower(c.1), needle))
}

/// The eligible candidates whose name does (or does not) start with the
/// needle, in their original order.
pub open spec fn offered(cands: Seq<CandidateView>, items: Seq<CandidateView>, needle: Seq<char>, prefix: bool) -> Seq<CandidateView>
    decreases cands.len(),
{
    if cands.len() == 0 {
        Seq::empty()
    } else {
        let rest = offered(cands.drop_last(), items, needle, prefix);
        let c = cands.last();
        if eligible(items, c, needle) && starts_with_seq(lower(c.1), needle) == prefix { rest.push(c) } else { rest }
    }
}

/// The candidates typed text matches, prefix matches first.
pub open spec fn matches_of(cands: Seq<CandidateView>, items: Seq<CandidateView>, typed: Seq<char>) -> Seq<CandidateView> {
    let needle = lower(trim(typed));
    offered(cands, items, needle, true) + offered(cands, items, needle, false)
}

/// Where the first candidate whose name equals `t`, ignoring ASCII case,
/// sits, or -1.
pub open spec fn first_exact(cands: Seq<CandidateView>, t: Seq<char>, from: int) -> int
    decreases cands.len() - from,
{
    if from < 0 || from >= cands.len() {
        -1
    } else if lower(cands[from].1) == lower(t) {
        from
    } else {
        first_exact(cands, t, from + 1)
    }
}

/// The displays of some items joined by the separator.
pub open spec fn join_displays(items: Seq<CandidateView>) -> Seq<char>
    decreases items.len(),
{
    if items.len() == 0 {
        Seq::empty()
    } else if items.len() == 1 {
        items[0].1
    } else {
        join_displays(items.drop_last()) + item_separator() + items.last().1
    }
}

/// The separator between the items before the caret and what follows.
pub open spec fn mid_separator(m: AutocompleteModel) -> Seq<char> {
    if m.item_caret > 0 && (m.buffer.0.len() > 0 || m.items.len() > m.item_caret) { item_separator() } else { Seq::empty() }
}

/// The whole value as one string: the items, with the buffer spliced in at
/// the caret.
pub open spec fn text_of(m: AutocompleteModel) -> Seq<char> {
    let after = m.items.skip(m.item_caret);
    join_displays(m.items.take(m.item_caret)) + mid_separator(m) + m.buffer.0
        + (if m.buffer.0.len() > 0 && after.len() > 0 { item_separator() } else { Seq::empty() })
        + join_displays(after)
}

/// Where the caret sits in [`text_of`], as a char index.
pub open spec fn caret_of(m: AutocompleteModel) -> int {
    join_displays(m.items.take(m.item_caret)).len() + mid_separator(m).len() + m.buffer.1
}

/// The list held to `max` items, dropping the oldest unless the newest item
/// (at `at - 1`) is the first, in which case the last goes.
pub open spec fn capped(items: Seq<CandidateView>, at: int, max: int) -> (Seq<CandidateView>, int)
    decreases items.len(),
{
    if items.len() <= max || items.len() == 0 {
        (items, at)
    } else {
        let drop = if at > 1 { 0 } else { items.len() - 1 };
        capped(items.remove(drop), if drop < at { at - 1 } else { at }, max)
    }
}

/// The items after a resolved item is added at the caret.
pub open spec fn added(m: AutocompleteModel, item: CandidateView) -> (Seq<CandidateView>, int) {
    if picked(m.items, item.0) {
        (m.items, m.item_caret)
    } else {
        let at = if m.item_caret <= m.items.len() { m.item_caret } else { m.items.len() as int };
        capped(m.items.insert(at, item), at + 1, m.max_items)
    }
}

/// What a commit resolves the typed text to: `Ok(candidate index)`,
/// `Ok(-1)` for nothing typed, or the refusal (`Err(false)` unknown,
/// `Err(true)` ambiguous).
pub open spec fn resolution_of(m: AutocompleteModel) -> Result<int, bool> {
    let typed = trim(m.buffer.0);
    if typed.len() == 0 {
        Ok(-1)
    } else if first_exact(m.candidates, typed, 0) >= 0 {
        Ok(first_exact(m.candidates, typed, 0))
    } else {
        let found = matches_of(m.candidates, m.items, typed);
        if found.len() == 0 { Err(false) } else if found.len() == 1 { Ok(-2) } else { Err(true) }
    }
}

/// Whether a refusal is the ambiguous (or unknown) one, quoting `typed`.
pub open spec fn refusal_is(u: Unresolved, ambiguous: bool, typed: Seq<char>) -> bool {
    match u {
        Unresolved::Ambiguous(t) => ambiguous && t@ == typed,
        Unresolved::Unknown(t) => !ambiguous && t@ == typed,
    }
}

/// The editor after deleting backwards: a character of the typed text
/// before the caret, or, with nothing typed, the item before the caret.
pub open spec fn deleted_back_of(m: AutocompleteModel) -> AutocompleteModel {
    let b = m.buffer;
    if b.0.len() > 0 {
        AutocompleteModel {
            buffer: if b.1 > 0 { (b.0.take(b.1 - 1) + b.0.skip(b.1), b.1 - 1) } else { b },
            cycle: None,
            ..m
        }
    } else if m.item_caret > 0 {
        AutocompleteModel { items: m.items.remove(m.item_caret - 1), item_caret: m.item_caret - 1, cycle: None, ..m }
    } else {
        AutocompleteModel { cycle: None, ..m }
    }
}

/// The editor after moving the caret a step: through the typed text, and
/// past its ends between the items.
pub open spec fn caret_moved_of(m: AutocompleteModel, delta: int) -> AutocompleteModel {
    let b = m.buffer;
    if delta < 0 {
        if b.1 > 0 {
            AutocompleteModel { buffer: (b.0, b.1 - 1), ..m }
        } else {
            AutocompleteModel { item_caret: if m.item_caret > 0 { m.item_caret - 1 } else { 0 }, ..m }
        }
    } else if b.1 < b.0.len() {
        AutocompleteModel { buffer: (b.0, b.1 + 1), ..m }
    } else {
        AutocompleteModel { item_caret: if m.item_caret < m.items.len() { m.item_caret + 1 } else { m.items.len() as int }, ..m }
    }
}

/// The editor after a completion step, and whether anything matched: the
/// text being completed (the original typing, while cycling) is replaced
/// by the next match's display, `delta` steps on from the last one shown
/// or, on the first step, the first match or (backwards) the last.
pub open spec fn completed_of(m: AutocompleteModel, delta: int) -> (AutocompleteModel, bool) {
    let typed = match m.cycle { Some((t, _)) => t, None => m.buffer.0 };
    let found = matches_of(m.candidates, m.items, typed);
    let next = match m.cycle {
        Some((_, i)) => (i + delta) % (found.len() as int),
        None => if delta >= 0 { 0 } else { found.len() - 1 },
    };
    if found.len() == 0 {
        (m, false)
    } else {
        (AutocompleteModel { buffer: (found[next].1, found[next].1.len() as int), cycle: Some((typed, next)), ..m }, true)
    }
}

/// On a first completion step, going forward shows the first match and
/// going back shows the last; and one step back followed by one forward
/// comes round to the first match.
pub proof fn lemma_first_steps_go_to_either_end(m: AutocompleteModel, delta: int)
    requires
        m.cycle is None,
        matches_of(m.candidates, m.items, m.buffer.0).len() > 0,
    ensures
        ({
            let found = matches_of(m.candidates, m.items, m.buffer.0);
            let (after, hit) = completed_of(m, delta);
            &&& hit
            &&& delta >= 0 ==> after.buffer.0 == found[0].1 && after.cycle == Some((m.buffer.0, 0int))
            &&& delta < 0 ==> after.buffer.0 == found[found.len() - 1].1
                && after.cycle == Some((m.buffer.0, found.len() - 1))
            &&& found.len() >= 2 ==> completed_of(m, 1).0.cycle != completed_of(m, -1).0.cycle
            &&& completed_of(completed_of(m, -1).0, 1).0.buffer.0 == found[0].1
        }),
{
    let found = matches_of(m.candidates, m.items, m.buffer.0);
    let back = completed_of(m, -1).0;
    assert(back.cycle == Some((m.buffer.0, found.len() - 1)));
    assert(((found.len() - 1) + 1) % (found.len() as int) == 0) by (nonlinear_arith)
        requires found.len() > 0;
}

/// While cycling through the matches, a step forward and a step back come
/// back to the match shown before, and the buffer shows it again.
pub proof fn lemma_cycle_steps_undo(m: AutocompleteModel, t: Seq<char>, i: int)
    requires
        m.cycle == Some((t, i)),
        0 <= i < matches_of(m.candidates, m.items, t).len(),
    ensures
        completed_of(completed_of(m, 1).0, -1).0.cycle == Some((t, i)),
        completed_of(completed_of(m, 1).0, -1).0.buffer.0 == matches_of(m.candidates, m.items, t)[i].1,
{
    let n = matches_of(m.candidates, m.items, t).len() as int;
    let j = (i + 1) % n;
    assert(0 <= j < n && (j - 1) % n == i) by (nonlinear_arith)
        requires 0 <= i < n, j == (i + 1) % n;
}

/// A list of picked items, typed with completion over a closed set.
#[derive(Debug)]
pub struct AutocompleteState {
    items: Vec<Candidate>,
    buffer: TextEdit,
    item_caret: usize,
    candidates: Vec<Candidate>,
    cycle: Option<(Vec<char>, usize)>,
    max_items: usize,
}

impl View for AutocompleteState {
    type V = AutocompleteModel;

    closed spec fn view(&self) -> AutocompleteModel {
        AutocompleteModel {
            items: self.items.deep_view(),
            buffer: self.buffer@,
            item_caret: self.item_caret as int,
            candidates: self.candidates.deep_view(),
            cycle: match self.cycle { Some((t, i)) => Some((t@, i as int)), None => None },
            max_items: self.max_items as int,
        }
    }
}


proof fn lemma_take_push<T>(s: Seq<T>, i: int)
    requires
        0 <= i < s.len(),
    ensures
        s.take(i + 1) == s.take(i).push(s[i]),
        s.take(i + 1).drop_last() == s.take(i),
        s.take(i + 1).last() == s[i],
{
    assert(s.take(i + 1) =~= s.take(i).push(s[i]));
}

pub(crate) fn clone_candidates(v: &[Candidate]) -> (r: Vec<Candidate>)
    ensures
        r.deep_view() == v.deep_view(),
{
    let mut out: Vec<Candidate> = Vec::new();
    let mut i: usize = 0;
    while i < v.len()
        invariant
            i <= v.len(),
            out.deep_view() == v.deep_view().take(i as int),
        decreases v.len() - i,
    {
        out.push(v[i].clone());
        proof { lemma_take_push(v.deep_view(), i as int); }
        i += 1;
        assert(out.deep_view() =~= v.deep_view().take(i as int));
    }
    assert(v.deep_view().take(v.len() as int) =~= v.deep_view());
    out
}

impl Clone for AutocompleteState {
    fn clone(&self) -> (r: Self)
        ensures
            r@ == self@,
    {
        AutocompleteState {
            items: clone_candidates(&self.items),
            buffer: self.buffer.clone(),
            item_caret: self.item_caret,
            candidates: clone_candidates(&self.candidates),
            cycle: match &self.cycle { Some((t, i)) => Some((t.clone(), *i)), None => None },
            max_items: self.max_items,
        }
    }
}

impl AutocompleteState {
    /// Every state keeps the item caret inside the list and a cap of at least
    /// one.
    pub closed spec fn wf(&self) -> bool {
        &&& self.item_caret <= self.items.len()
        &&& self.max_items >= 1
    }

    /// Opens an editor holding `items`, with the caret after the last of them.
    pub fn new(items: Vec<Candidate>, candidates: Vec<Candidate>, max_items: usize) -> (r: Self)
        ensures
            r.wf(),
            r@.items == items.deep_view(),
            r@.buffer == (Seq::<char>::empty(), 0int),
            r@.item_caret == items.len(),
            r@.candidates == candidates.deep_view(),
            r@.cycle is None,
            r@.max_items == if max_items < 1 { 1 } else { max_items as int },
    {
        let item_caret = items.len();
        AutocompleteState {
            items,
            buffer: TextEdit::new(),
            item_caret,
            candidates,
            cycle: None,
            max_items: if max_items < 1 { 1 } else { max_items },
        }
    }

    /// The items picked so far.
    pub fn items(&self) -> (r: &[Candidate])
        ensures
            r.deep_view() == self@.items,
    {
        self.items.as_slice()
    }

    /// The text still being typed.
    pub fn buffer(&self) -> (r: String)
        ensures
            r@ == self@.buffer.0,
    {
        self.buffer.text()
    }

    /// The buffer itself, for the caret motions every text field shares.
    pub fn buffer_mut(&mut self) -> (r: &mut TextEdit)
        requires
            old(self).wf(),
        ensures
            final(self).wf(),
            r@ == old(self)@.buffer,
            final(self)@ == (AutocompleteModel { buffer: (*final(r))@, ..old(self)@ }),
    {
        &mut self.buffer
    }

    /// Everything that could be picked.
    pub fn candidates(&self) -> (r: &[Candidate])
        ensures
            r.deep_view() == self@.candidates,
    {
        self.candidates.as_slice()
    }

    /// The displays of `items[lo..hi]` joined by the separator.
    fn join_range(&self, lo: usize, hi: usize) -> (r: Vec<char>)
        requires
            lo <= hi <= self.items.len(),
        ensures
            r@ == join_displays(self@.items.subrange(lo as int, hi as int)),
    {
        let mut out: Vec<char> = Vec::new();
        let mut i = lo;
        while i < hi
            invariant
                lo <= i <= hi <= self.items.len(),
                out@ == join_displays(self@.items.subrange(lo as int, i as int)),
            decreases hi - i,
        {
            let d = chars_of(self.items[i].display.as_str());
            let ghost sub = self@.items.subrange(lo as int, i + 1);
            assert(sub.drop_last() =~= self@.items.subrange(lo as int, i as int));
            assert(sub.last() == self@.items[i as int]);
            if i == lo {
                out = d;
            } else {
                let sep: Vec<char> = vec![',', ' '];
                assert(sep@ == item_separator());
                out = concat_chars(&concat_chars(&out, &sep), &d);
            }
            i += 1;
        }
        out
    }

    fn text_and_caret(&self) -> (r: (Vec<char>, usize))
        requires
            self.wf(),
        ensures
            r.0@ == text_of(self@),
            r.1 == caret_of(self@),
    {
        self.buffer.valid();
        let n = self.items.len();
        let ic = self.item_caret;
        let before = self.join_range(0, ic);
        let after = self.join_range(ic, n);
        assert(self@.items.subrange(0, ic as int) == self@.items.take(ic as int));
        assert(self@.items.subrange(ic as int, n as int) == self@.items.skip(ic as int));
        let buf = self.buffer.chars();
        let sep: Vec<char> = vec![',', ' '];
        assert(sep@ == item_separator());
        let empty: Vec<char> = Vec::new();
        let mid = if ic > 0 && (buf.len() > 0 || n > ic) { &sep } else { &empty };
        let tail_sep = if buf.len() > 0 && n > ic { &sep } else { &empty };
        let text = concat_chars(&concat_chars(&concat_chars(&concat_chars(&before, mid), buf), tail_sep), &after);
        let caret = text.len() - (tail_sep.len() + after.len() + (buf.len() - self.buffer.caret()));
        (text, caret)
    }

    /// The whole value as one string: the items, with the buffer spliced in
    /// where the caret is.
    pub fn text(&self) -> (r: String)
        requires
            self.wf(),
        ensures
            r@ == text_of(self@),
    {
        let (t, _) = self.text_and_caret();
        string_from_chars(&t)
    }

    /// Where the caret sits in [`AutocompleteState::text`], as a char index.
    pub fn caret(&self) -> (r: usize)
        requires
            self.wf(),
        ensures
            r == caret_of(self@),
    {
        self.text_and_caret().1
    }

    /// Whether a handle is among the picked items.
    fn is_picked(&self, handle: &String) -> (r: bool)
        ensures
            r == picked(self@.items, handle@),
    {
        let mut i: usize = 0;
        while i < self.items.len()
            invariant
                i <= self.items.len(),
                forall|j: int| 0 <= j < i ==> (#[trigger] self@.items[j]).0 != handle@,
            decreases self.items.len() - i,
        {
            if self.items[i].handle == *handle {
                assert(self@.items[i as int].0 == handle@);
                return true;
            }
            i += 1;
        }
        false
    }

    /// The eligible candidates that do (or do not) start with the needle.
    fn offered_exec(&self, needle: &Vec<char>, prefix: bool) -> (r: Vec<Candidate>)
        ensures
            r.deep_view() == offered(self@.candidates, self@.items, needle@, prefix),
    {
        let mut out: Vec<Candidate> = Vec::new();
        let mut i: usize = 0;
        while i < self.candidates.len()
            invariant
                i <= self.candidates.len(),
                out.deep_view() == offered(self@.candidates.take(i as int), self@.items, needle@, prefix),
            decreases self.candidates.len() - i,
        {
            let c = &self.candidates[i];
            let name = lower_chars(&chars_of(c.display.as_str()));
            proof { lemma_take_push(self@.candidates, i as int); }
            let ok = !self.is_picked(&c.handle) && (needle.len() == 0 || contains_chars(&name, needle))
                && starts_with_chars(&name, needle) == prefix;
            if ok {
                out.push(c.clone());
            }
            i += 1;
            assert(out.deep_view() =~= offered(self@.candidates.take(i as int), self@.items, needle@, prefix));
        }
        assert(self@.candidates.take(self.candidates.len() as int) =~= self@.candidates);
        out
    }

    /// The candidates some typed text matches, in offer order.
    fn matches_for(&self, typed: &Vec<char>) -> (r: Vec<Candidate>)
        ensures
            r.deep_view() == matches_of(self@.candidates, self@.items, typed@),
    {
        let needle = lower_chars(&trim_chars(typed));
        let mut first = self.offered_exec(&needle, true);
        let second = self.offered_exec(&needle, false);
        let ghost a = first.deep_view();
        let mut i: usize = 0;
        while i < second.len()
            invariant
                i <= second.len(),
                first.deep_view() == a + second.deep_view().take(i as int),
            decreases second.len() - i,
        {
            let ghost prev = first.deep_view();
            first.push(second[i].clone());
            assert(first.deep_view() =~= prev.push(second.deep_view()[i as int]));
            proof { lemma_take_push(second.deep_view(), i as int); }
            i += 1;
            assert(first.deep_view() =~= a + second.deep_view().take(i as int));
        }
        assert(second.deep_view().take(second.len() as int) =~= second.deep_view());
        first
    }

    /// The candidates the typed text currently matches, in offer order:
    /// prefix matches first, and nothing already picked.
    pub fn matches(&self) -> (r: Vec<Candidate>)
        ensures
            r.deep_view() == matches_of(self@.candidates, self@.items,
                match self@.cycle { Some((t, _)) => t, None => self@.buffer.0 }),
    {
        match &self.cycle {
            Some((typed, _)) => self.matches_for(typed),
            None => self.matches_for(self.buffer.chars()),
        }
    }

    /// Where the `tab` cycle currently sits in the matches.
    pub fn highlighted(&self) -> (r: Option<usize>)
        ensures
            r == match self@.cycle { Some((_, i)) => Some(i as usize), None => None::<usize> },
    {
        match &self.cycle {
            Some((_, index)) => Some(*index),
            None => None,
        }
    }

    /// Inserts a typed character, which starts the candidate list over.
    pub fn push_char(&mut self, ch: char)
        requires
            old(self).wf(),
        ensures
            final(self).wf(),
            final(self)@ == (AutocompleteModel {
                buffer: (old(self)@.buffer.0.take(old(self)@.buffer.1).push(ch) + old(self)@.buffer.0.skip(old(self)@.buffer.1), old(self)@.buffer.1 + 1),
                cycle: None,
                ..old(self)@
            }),
    {
        self.buffer.insert(ch);
        self.cycle = None;
    }

    /// Deletes a character, or the item before the caret when no text is
    /// typed.
    pub fn delete_back(&mut self)
        requires
            old(self).wf(),
        ensures
            final(self).wf(),
            final(self)@ == deleted_back_of(old(self)@),
    {
        let ghost m0 = self@;
        self.buffer.valid();
        self.cycle = None;
        if !self.buffer.is_empty() {
            self.buffer.delete_back();
            return;
        }
        if self.item_caret == 0 {
            return;
        }
        self.item_caret = self.item_caret - 1;
        let ghost before = self.items.deep_view();
        self.items.remove(self.item_caret);
        assert(self.items.deep_view() =~= before.remove(self.item_caret as int));
    }

    /// Moves the caret, within the typed text first and between the items at
    /// its ends.
    pub fn move_caret(&mut self, delta: i64)
        requires
            old(self).wf(),
        ensures
            final(self).wf(),
            final(self)@ == caret_moved_of(old(self)@, delta as int),
    {
        self.buffer.valid();
        if delta < 0 {
            if self.buffer.caret() > 0 {
                self.buffer.move_caret(-1);
                return;
            }
            self.item_caret = if self.item_caret > 0 { self.item_caret - 1 } else { 0 };
            return;
        }
        if self.buffer.caret() < self.buffer.len() {
            self.buffer.move_caret(1);
            return;
        }
        self.item_caret = if self.item_caret < self.items.len() { self.item_caret + 1 } else { self.items.len() };
    }

    /// Empties the whole list, items and typed text alike.
    pub fn clear(&mut self)
        requires
            old(self).wf(),
        ensures
            final(self).wf(),
            final(self)@ == (AutocompleteModel {
                items: Seq::empty(),
                buffer: (Seq::<char>::empty(), 0int),
                item_caret: 0,
                cycle: None,
                ..old(self)@
            }),
    {
        self.items = Vec::new();
        self.buffer.clear();
        self.item_caret = 0;
        self.cycle = None;
        assert(self.items.deep_view() =~= Seq::<CandidateView>::empty());
    }

    /// Completes the typed prefix to the next match (`delta > 0`) or the
    /// previous one, answering whether anything was completed.
    pub fn complete(&mut self, delta: i32) -> (r: bool)
        requires
            old(self).wf(),
        ensures
            final(self).wf(),
            (final(self)@, r) == completed_of(old(self)@, delta as int),
    {
        let typed: Vec<char> = match &self.cycle {
            Some((t, _)) => t.clone(),
            None => self.buffer.chars().clone(),
        };
        let found = self.matches_for(&typed);
        let n = found.len();
        if n == 0 {
            return false;
        }
        let next: usize = match &self.cycle {
            Some((_, index)) => euclid_step(*index, delta, n),
            None => if delta >= 0 { 0 } else { n - 1 },
        };
        let shown = chars_of(found[next].display.as_str());
        self.buffer.set_chars_at_end(shown);
        self.cycle = Some((typed, next));
        true
    }

    /// Where the first candidate whose name equals the text, ignoring ASCII
    /// case, sits.
    fn exact_match(&self, typed: &Vec<char>) -> (r: Option<usize>)
        ensures
            r matches Some(i) ==> i == first_exact(self@.candidates, typed@, 0) && i < self@.candidates.len(),
            r is None ==> first_exact(self@.candidates, typed@, 0) == -1,
    {
        let want = lower_chars(typed);
        let mut i: usize = 0;
        while i < self.candidates.len()
            invariant
                i <= self.candidates.len(),
                want@ == lower(typed@),
                first_exact(self@.candidates, typed@, 0) == first_exact(self@.candidates, typed@, i as int),
            decreases self.candidates.len() - i,
        {
            let name = lower_chars(&chars_of(self.candidates[i].display.as_str()));
            if eq_chars(&name, &want) {
                return Some(i);
            }
            i += 1;
        }
        None
    }

    /// Adds an item at the caret, dropping the oldest when the cap is
    /// reached; an item already picked only clears the buffer.
    fn push_item(&mut self, item: Candidate)
        requires
            old(self).wf(),
        ensures
            final(self).wf(),
            final(self)@.items == added(old(self)@, item.deep_view()).0,
            !picked(old(self)@.items, item.deep_view().0) ==> final(self)@.item_caret == added(old(self)@, item.deep_view()).1,
            final(self)@.buffer == (Seq::<char>::empty(), 0int),
            final(self)@.candidates == old(self)@.candidates,
            final(self)@.max_items == old(self)@.max_items,
    {
        if self.is_picked(&item.handle) {
            self.buffer.clear();
            return;
        }
        let ghost iv = item.deep_view();
        let mut at = self.item_caret;
        let ghost before = self.items.deep_view();
        self.items.insert(at, item);
        assert(self.items.deep_view() =~= before.insert(at as int, iv));
        let n = self.items.len();
        assert(at < n);
        at = at + 1;
        while self.items.len() > self.max_items
            invariant
                self.max_items >= 1,
                1 <= at <= self.items.len(),
                capped(self.items.deep_view(), at as int, self.max_items as int) == added(old(self)@, iv),
                self.candidates.deep_view() == old(self)@.candidates,
                self.max_items == old(self)@.max_items,
            decreases self.items.len(),
        {
            let drop = if at > 1 { 0 } else { self.items.len() - 1 };
            let ghost prev = self.items.deep_view();
            self.items.remove(drop);
            assert(self.items.deep_view() =~= prev.remove(drop as int));
            if drop < at {
                at = at - 1;
            }
        }
        self.item_caret = at;
        self.buffer.clear();
        self.cycle = None;
    }

    /// Resolves whatever is still typed and hands back the finished list.
    ///
    /// The buffer has to name a candidate: an exact display name, or a
    /// fragment that only one candidate matches. Anything else is refused.
    pub fn commit(self) -> (r: Result<Vec<Candidate>, Unresolved>)
        requires
            self.wf(),
        ensures
            ({
                let m = self@;
                let typed = trim(m.buffer.0);
                match resolution_of(m) {
                    Ok(i) => r matches Ok(v) && v.deep_view() == (
                        if i == -1 { m.items }
                        else if i >= 0 { added(m, m.candidates[i]).0 }
                        else { added(m, matches_of(m.candidates, m.items, typed)[0]).0 }),
                    Err(ambiguous) => r matches Err(u) && refusal_is(u, ambiguous, typed),
                }
            }),
    {
        let mut this = self;
        let typed = trim_chars(this.buffer.chars());
        if typed.len() == 0 {
            return Ok(this.items);
        }
        let resolved = match this.exact_match(&typed) {
            Some(i) => this.candidates[i].clone(),
            None => {
                let found = this.matches_for(&typed);
                if found.len() == 0 {
                    return Err(Unresolved::Unknown(string_from_chars(&typed)));
                } else if found.len() == 1 {
                    found[0].clone()
                } else {
                    return Err(Unresolved::Ambiguous(string_from_chars(&typed)));
                }
            },
        };
        this.push_item(resolved);
        Ok(this.items)
    }
}

/// `(index + delta)` wrapped into `0..n`.
fn euclid_step(index: usize, delta: i32, n: usize) -> (r: usize)
    requires
        n > 0,
    ensures
        r == (index as int + delta as int) % (n as int),
        r < n,
{
    let x: i128 = index as i128 + delta as i128;
    let m: u128 = n as u128;
    if x >= 0 {
        let q = (x as u128) % m;
        q as usize
    } else {
        let y: u128 = (-x) as u128;
        let k = y % m;
        proof { lemma_neg_mod(y as int, m as int, k as int); }
        if k == 0 { 0 } else { (m - k) as usize }
    }
}

pub(crate) proof fn lemma_neg_mod(y: int, m: int, k: int)
    requires
        y > 0,
        m > 0,
        k == y % m,
    ensures
        k == 0 ==> (-y) % m == 0,
        k > 0 ==> (-y) % m == m - k,
{
    let q = y / m;
    assert(y == q * m + k) by (nonlinear_arith) requires q == y / m, k == y % m, m > 0;
    if k == 0 {
        assert((-y) == (-q) * m) by (nonlinear_arith) requires y == q * m;
        assert((-y) % m == 0) by (nonlinear_arith) requires (-y) == (-q) * m, m > 0;
    } else {
        assert(-y == (-q - 1) * m + (m - k)) by (nonlinear_arith) requires y == q * m + k;
        assert((-y) % m == m - k) by (nonlinear_arith) requires -y == (-q - 1) * m + (m - k), 0 < m - k < m;
    }
}

/// Every offered candidate is eligible: not picked yet, and containing
/// the needle.
proof fn lemma_offered_eligible(cands: Seq<CandidateView>, items: Seq<CandidateView>, needle: Seq<char>, prefix: bool, i: int)
    requires
        0 <= i < offered(cands, items, needle, prefix).len(),
    ensures
        eligible(items, offered(cands, items, needle, prefix)[i], needle),
    decreases cands.len(),
{
    if cands.len() > 0 {
        let rest = offered(cands.drop_last(), items, needle, prefix);
        if i < rest.len() {
            lemma_offered_eligible(cands.drop_last(), items, needle, prefix, i);
        }
    }
}

/// What is offered for typed text is never an item already picked, and
/// always contains what was typed.
pub proof fn lemma_matches_not_picked(cands: Seq<CandidateView>, items: Seq<CandidateView>, typed: Seq<char>, i: int)
    requires
        0 <= i < matches_of(cands, items, typed).len(),
    ensures
        !picked(items, matches_of(cands, items, typed)[i].0),
        lower(trim(typed)).len() == 0 || contains_seq(lower(matches_of(cands, items, typed)[i].1), lower(trim(typed))),
{
    let needle = lower(trim(typed));
    let first = offered(cands, items, needle, true);
    if i < first.len() {
        lemma_offered_eligible(cands, items, needle, true, i);
    } else {
        lemma_offered_eligible(cands, items, needle, false, i - first.len());
    }
}

/// Adding an item never leaves more items than the field holds.
pub proof fn lemma_capped_bound(items: Seq<CandidateView>, at: int, max: int)
    requires
        max >= 0,
    ensures
        capped(items, at, max).0.len() <= max,
        capped(items, at, max).0.len() <= items.len(),
    decreases items.len(),
{
    if !(items.len() <= max || items.len() == 0) {
        let drop = if at > 1 { 0 } else { items.len() - 1 };
        lemma_capped_bound(items.remove(drop), if drop < at { at - 1 } else { at }, max);
    }
}

/// No two items share a handle.
pub open spec fn distinct_handles(items: Seq<CandidateView>) -> bool {
    forall|i: int, j: int| 0 <= i < j < items.len() ==> (#[trigger] items[i]).0 != (#[trigger] items[j]).0
}

proof fn lemma_remove_keeps_distinct(items: Seq<CandidateView>, d: int)
    requires
        distinct_handles(items),
        0 <= d < items.len(),
    ensures
        distinct_handles(items.remove(d)),
{
    let r = items.remove(d);
    assert forall|i: int, j: int| 0 <= i < j < r.len() implies (#[trigger] r[i]).0 != (#[trigger] r[j]).0 by {
        let a = if i < d { i } else { i + 1 };
        let b = if j < d { j } else { j + 1 };
        assert(r[i] == items[a] && r[j] == items[b]);
    }
}

proof fn lemma_capped_keeps(items: Seq<CandidateView>, at: int, max: int, item: CandidateView)
    requires
        distinct_handles(items),
        1 <= at <= items.len(),
        items[at - 1] == item,
        max >= 1,
    ensures
        distinct_handles(capped(items, at, max).0),
        capped(items, at, max).0.contains(item),
    decreases items.len(),
{
    if !(items.len() <= max || items.len() == 0) {
        let drop = if at > 1 { 0 } else { items.len() - 1 };
        let next = if drop < at { at - 1 } else { at };
        lemma_remove_keeps_distinct(items, drop);
        assert(items.remove(drop)[next - 1] == item);
        lemma_capped_keeps(items.remove(drop), next, max, item);
    } else {
        assert(items[at - 1] == item);
    }
}

/// Adding an item keeps every handle held once and the field within its
/// cap, and the item added is always held afterwards: when the cap forces
/// a drop, the newest item is the one kept. An item already held leaves
/// the items as they were.
pub proof fn lemma_adding_keeps_handles_distinct(m: AutocompleteModel, item: CandidateView)
    requires
        distinct_handles(m.items),
        m.items.len() <= m.max_items,
        m.max_items >= 1,
        0 <= m.item_caret,
    ensures
        distinct_handles(added(m, item).0),
        added(m, item).0.len() <= m.max_items,
        picked(added(m, item).0, item.0),
        picked(m.items, item.0) ==> added(m, item).0 == m.items,
{
    if picked(m.items, item.0) {
    } else {
        let at = if m.item_caret <= m.items.len() { m.item_caret } else { m.items.len() as int };
        let ins = m.items.insert(at, item);
        assert forall|i: int, j: int| 0 <= i < j < ins.len() implies (#[trigger] ins[i]).0 != (#[trigger] ins[j]).0 by {
            if i == at {
                assert(ins[j] == m.items[j - 1]);
            } else if j == at {
                assert(ins[i] == m.items[i]);
            } else {
                let a = if i < at { i } else { i - 1 };
                let b = if j < at { j } else { j - 1 };
                assert(ins[i] == m.items[a] && ins[j] == m.items[b]);
            }
        }
        assert(ins[at] == item);
        lemma_capped_keeps(ins, at + 1, m.max_items, item);
        lemma_capped_bound(ins, at + 1, m.max_items);
        let r = capped(ins, at + 1, m.max_items).0;
        let k = choose|k: int| 0 <= k < r.len() && r[k] == item;
        assert(r[k].0 == item.0);
    }
}

} // verus!
