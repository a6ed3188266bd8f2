//! The top pane's height and its transient minimise / maximise mode.

use vstd::prelude::*;

verus! {

/// The smallest height a restored or resized pane may have.
pub const MIN_PANE_HEIGHT: u16 = 4;

/// The pane's display mode.
#[derive(Clone, Copy, Debug, PartialEq, Eq, Structural)]
pub enum PaneMode {
    Normal,
    Minimized,
    Maximized,
}

/// The abstract state of a [`PaneSizeState`].
pub struct PaneModel {
    pub preferred: u16,
    pub saved_preferred: u16,
    pub mode: PaneMode,
}

/// Tracks the preferred height of the top pane and how it is rendered.
#[derive(Clone, Copy, Debug)]
pub struct PaneSizeState {
    preferred: u16,
    saved_preferred: u16,
    mode: PaneMode,
}

impl View for PaneSizeState {
    type V = PaneModel;

    closed spec fn view(&self) -> PaneModel {
        PaneModel { preferred: self.preferred, saved_preferred: self.saved_preferred, mode: self.mode }
    }
}

/// The height a pane is drawn at, given its state and the room available.
pub open spec fn spec_actual_height(m: PaneModel, available: u16, min_height: u16) -> int {
    let lo = if min_height < 1 { 1int } else { min_height as int };
    let hi = if (available as int) < lo { lo } else { available as int };
    match m.mode {
        PaneMode::Normal => if (m.preferred as int) < lo { lo } else if (m.preferred as int) > hi { hi } else { m.preferred as int },
        PaneMode::Minimized => 0,
        PaneMode::Maximized => hi,
    }
}

/// Heights are at least the minimum and small enough for the signed resize
/// arithmetic, and a normal pane remembers the height it has.
pub open spec fn pane_wf(m: PaneModel) -> bool {
    &&& MIN_PANE_HEIGHT <= m.preferred <= 0x7fff
    &&& MIN_PANE_HEIGHT <= m.saved_preferred <= 0x7fff
    &&& m.mode == PaneMode::Normal ==> m.saved_preferred == m.preferred
}

/// The pane after minimising: the height is remembered unless it already is.
pub open spec fn minimized(m: PaneModel) -> PaneModel {
    if m.mode == PaneMode::Minimized { m } else { PaneModel { saved_preferred: m.preferred, mode: PaneMode::Minimized, ..m } }
}

/// The pane after maximising: the height is remembered unless it already is.
pub open spec fn maximized(m: PaneModel) -> PaneModel {
    if m.mode == PaneMode::Maximized { m } else { PaneModel { saved_preferred: m.preferred, mode: PaneMode::Maximized, ..m } }
}

/// The pane after restoring: back to normal at the remembered height.
pub open spec fn restored(m: PaneModel) -> PaneModel {
    if m.mode == PaneMode::Normal {
        m
    } else {
        PaneModel {
            preferred: if m.saved_preferred < MIN_PANE_HEIGHT { MIN_PANE_HEIGHT } else { m.saved_preferred },
            mode: PaneMode::Normal,
            ..m
        }
    }
}

/// The pane after resizing by `delta`, never below the minimum; in normal
/// mode the new height is also remembered.
pub open spec fn resized(m: PaneModel, delta: int) -> PaneModel {
    let p = if m.preferred + delta < MIN_PANE_HEIGHT { MIN_PANE_HEIGHT as int } else { m.preferred + delta };
    PaneModel {
        preferred: p as u16,
        saved_preferred: if m.mode == PaneMode::Normal { p as u16 } else { m.saved_preferred },
        mode: m.mode,
    }
}

impl Default for PaneSizeState {
    /// A normal pane eleven rows high.
    fn default() -> (s: Self)
        ensures
            s@ == (PaneModel { preferred: 11, saved_preferred: 11, mode: PaneMode::Normal }),
    {
        PaneSizeState { preferred: 11, saved_preferred: 11, mode: PaneMode::Normal }
    }
}

impl PaneSizeState {
    /// Heights stay within what the signed resize arithmetic can hold.
    #[verifier::type_invariant]
    closed spec fn wf(self) -> bool {
        pane_wf(self@)
    }

    /// What always holds of the pane's heights.
    pub fn well_formed(&self)
        ensures
            pane_wf(self@),
    {
        proof { use_type_invariant(self); }
    }


    pub fn preferred(&self) -> (r: u16)
        ensures r == self@.preferred,
    {
        self.preferred
    }

    pub fn is_minimized(&self) -> (r: bool)
        ensures r == (self@.mode == PaneMode::Minimized),
    {
        match self.mode { PaneMode::Minimized => true, _ => false }
    }

    pub fn is_maximized(&self) -> (r: bool)
        ensures r == (self@.mode == PaneMode::Maximized),
    {
        match self.mode { PaneMode::Maximized => true, _ => false }
    }

    pub fn is_normal(&self) -> (r: bool)
        ensures r == (self@.mode == PaneMode::Normal),
    {
        match self.mode { PaneMode::Normal => true, _ => false }
    }

    /// Grows or shrinks the preferred height, never below the minimum.
    pub fn resize(&mut self, delta: i16)
        requires
            old(self)@.preferred + delta <= 0x7fff,
        ensures
            final(self)@ == resized(old(self)@, delta as int),
    {
        proof { use_type_invariant(&*self); }
        let sum: i16 = self.preferred as i16 + delta;
        let updated: u16 = if sum < 4 { 4 } else { sum as u16 };
        let saved = if self.is_normal() { updated } else { self.saved_preferred };
        *self = PaneSizeState { preferred: updated, saved_preferred: saved, mode: self.mode };
    }

    /// Hides the pane, remembering its height.
    pub fn minimize(&mut self)
        ensures
            final(self)@ == minimized(old(self)@),
    {
        proof { use_type_invariant(&*self); }
        if !self.is_minimized() {
            *self = PaneSizeState { preferred: self.preferred, saved_preferred: self.preferred, mode: PaneMode::Minimized };
        }
    }

    /// Gives the pane all the room, remembering its height.
    pub fn maximize(&mut self)
        ensures
            final(self)@ == maximized(old(self)@),
    {
        proof { use_type_invariant(&*self); }
        if !self.is_maximized() {
            *self = PaneSizeState { preferred: self.preferred, saved_preferred: self.preferred, mode: PaneMode::Maximized };
        }
    }

    /// Puts the pane back at its remembered height.
    pub fn restore(&mut self)
        ensures
            final(self)@ == restored(old(self)@),
    {
        proof { use_type_invariant(&*self); }
        if !self.is_normal() {
            let height = if self.saved_preferred < MIN_PANE_HEIGHT { MIN_PANE_HEIGHT } else { self.saved_preferred };
            *self = PaneSizeState { preferred: height, saved_preferred: self.saved_preferred, mode: PaneMode::Normal };
        }
    }

    /// The height the pane is drawn at: its preferred height held between
    /// the minimum (at least one row) and the room available, nothing when
    /// minimised, all the room when maximised.
    pub fn actual_height(&self, available: u16, min_height: u16) -> (r: u16)
        ensures
            r == spec_actual_height(self@, available, min_height),
    {
        let lo: u16 = if min_height < 1 { 1 } else { min_height };
        let hi: u16 = if available < lo { lo } else { available };
        match self.mode {
            PaneMode::Normal => if self.preferred < lo { lo } else if self.preferred > hi { hi } else { self.preferred },
            PaneMode::Minimized => 0,
            PaneMode::Maximized => hi,
        }
    }
}

/// Minimising or maximising and then restoring brings the pane back to
/// the height it had, however it was resized in between.
pub proof fn lemma_restore_returns(m: PaneModel, maximize: bool, deltas: Seq<int>)
    requires
        pane_wf(m),
        m.mode == PaneMode::Normal,
    ensures
        restored(resizes(if maximize { maximized(m) } else { minimized(m) }, deltas)) == m,
    decreases deltas.len(),
{
    let hidden = if maximize { maximized(m) } else { minimized(m) };
    lemma_resizes_keep(hidden, deltas);
}

/// The pane after a run of resizes.
pub open spec fn resizes(m: PaneModel, deltas: Seq<int>) -> PaneModel
    decreases deltas.len(),
{
    if deltas.len() == 0 { m } else { resizes(resized(m, deltas[0]), deltas.drop_first()) }
}

proof fn lemma_resizes_keep(m: PaneModel, deltas: Seq<int>)
    requires
        m.mode != PaneMode::Normal,
    ensures
        resizes(m, deltas).mode == m.mode,
        resizes(m, deltas).saved_preferred == m.saved_preferred,
    decreases deltas.len(),
{
    if deltas.len() > 0 {
        lemma_resizes_keep(resized(m, deltas[0]), deltas.drop_first());
    }
}

/// A normal pane is drawn between the minimum and the room available, and
/// at its preferred height whenever that fits.
pub proof fn lemma_height_bounds(m: PaneModel, available: u16, min_height: u16)
    ensures
        m.mode == PaneMode::Normal ==> (if min_height < 1 { 1 } else { min_height as int }) <= spec_actual_height(m, available, min_height),
        m.mode == PaneMode::Normal && (if min_height < 1 { 1 } else { min_height as int }) <= available
            ==> spec_actual_height(m, available, min_height) <= available,
        m.mode == PaneMode::Normal && (if min_height < 1 { 1 } else { min_height as int }) <= m.preferred <= available
            ==> spec_actual_height(m, available, min_height) == m.preferred,
{
}

} // verus!
