//! Where every panel stands and which layout is active.
//!
//! A panel's rectangle is `[x, y, width, height]`; its four numbers are
//! `f32` values held as their bit patterns. Scaling a layout to the
//! viewport is floating-point work and happens outside the library, which
//! receives the scaled rectangles.

use vstd::prelude::*;
use crate::windows::panel_id::{PanelId, PANEL_COUNT, lemma_slot_injective};
use crate::windows::window_layouts::LAYOUT_WINDOW_LAYOUTS_FALLBACK;

verus! {

/// Current panel rectangles, the active layout and whether panels are
/// pinned to it.
pub struct WindowConfig {
    /// One entry per panel, in `PanelId` declaration order.
    pub panels: Vec<Option<[u32; 4]>>,
    /// Index of the active layout.
    pub selected_layout_idx: usize,
    /// When true, panels are pinned to the layout's positions each frame.
    pub layout_locked: bool,
}

impl WindowConfig {
    /// The internal table has one slot per panel.
    pub closed spec fn wf(self) -> bool {
        self.panels@.len() == PANEL_COUNT
    }

}

impl View for WindowConfig {
    type V = Map<PanelId, [u32; 4]>;

    /// The rectangle of each panel that has one.
    closed spec fn view(&self) -> Map<PanelId, [u32; 4]> {
        Map::new(|id: PanelId| self.panels@[id.slot()] is Some, |id: PanelId| self.panels@[id.slot()]->0)
    }
}


/// The rectangle map after writing each `(panel, rectangle)` pair of
/// `rects` in order.
pub open spec fn with_rects(
    panels: Map<PanelId, [u32; 4]>,
    rects: Seq<(PanelId, [u32; 4])>,
) -> Map<PanelId, [u32; 4]>
    decreases rects.len(),
{
    if rects.len() == 0 {
        panels
    } else {
        with_rects(panels.insert(rects[0].0, rects[0].1), rects.drop_first())
    }
}

proof fn lemma_with_rects_push(
    panels: Map<PanelId, [u32; 4]>,
    rects: Seq<(PanelId, [u32; 4])>,
    x: (PanelId, [u32; 4]),
)
    ensures
        with_rects(panels, rects.push(x)) == with_rects(panels, rects).insert(x.0, x.1),
    decreases rects.len(),
{
    if rects.len() == 0 {
        assert(rects.push(x)[0] == x);
        assert(rects.push(x).drop_first() =~= Seq::<(PanelId, [u32; 4])>::empty());
        assert(with_rects(panels.insert(x.0, x.1), Seq::empty()) == panels.insert(x.0, x.1));
    } else {
        assert(rects.push(x)[0] == rects[0]);
        assert(rects.push(x).drop_first() =~= rects.drop_first().push(x));
        lemma_with_rects_push(panels.insert(rects[0].0, rects[0].1), rects.drop_first(), x);
    }
}

impl WindowConfig {
    proof fn lemma_insert(self, next: Self, id: PanelId, rect: [u32; 4])
        requires
            self.wf(),
            next.panels@ == self.panels@.update(id.slot(), Some(rect)),
        ensures
            next.wf(),
            next@ == self@.insert(id, rect),
    {
        assert forall|k: PanelId| #![auto] next@.contains_key(k) == self@.insert(id, rect).contains_key(k) && (next@.contains_key(k) ==> next@[k] == self@.insert(id, rect)[k]) by {
            lemma_slot_injective(k, id);
        }
        assert(next@ =~= self@.insert(id, rect));
    }

    /// The rectangle of `id`, or all zeros when the panel has none.
    pub fn rect(&self, id: PanelId) -> (r: [u32; 4])
        requires
            self.wf(),
        ensures
            self@.contains_key(id) ==> r == self@[id],
            !self@.contains_key(id) ==> r@ == seq![0u32, 0u32, 0u32, 0u32],
    {
        match self.panels[id.index()] {
            Some(r) => r,
            None => {
                let z: [u32; 4] = [0, 0, 0, 0];
                assert(z@ =~= seq![0u32, 0u32, 0u32, 0u32]);
                z
            },
        }
    }

    /// Records where a panel now stands, e.g. after the user dragged it.
    pub fn update_panel_rect(&mut self, id: PanelId, rect: [u32; 4])
        requires
            old(self).wf(),
        ensures
            final(self).wf(),
            final(self)@ == old(self)@.insert(id, rect),
            final(self).selected_layout_idx == old(self).selected_layout_idx,
            final(self).layout_locked == old(self).layout_locked,
    {
        let ghost before = *self;
        self.panels.set(id.index(), Some(rect));
        proof {
            before.lemma_insert(*self, id, rect);
        }
    }

    /// Makes layout `index` active with its rectangles already scaled to
    /// the viewport: each `(panel, rectangle)` pair is written in order.
    pub fn apply_scaled_layout(&mut self, index: usize, rects: &Vec<(PanelId, [u32; 4])>)
        requires
            old(self).wf(),
        ensures
            final(self).wf(),
            final(self)@ == with_rects(old(self)@, rects@),
            final(self).selected_layout_idx == index,
            final(self).layout_locked == old(self).layout_locked,
    {
        let ghost start = self@;
        let mut i: usize = 0;
        assert(rects@.take(0) =~= Seq::<(PanelId, [u32; 4])>::empty());
        while i < rects.len()
            invariant
                i <= rects.len(),
                self.wf(),
                self@ == with_rects(start, rects@.take(i as int)),
                self.layout_locked == old(self).layout_locked,
            decreases rects.len() - i,
        {
            let (id, rect) = rects[i];
            assert(rects@.take(i + 1) =~= rects@.take(i as int).push(rects@[i as int]));
            proof {
                lemma_with_rects_push(start, rects@.take(i as int), rects@[i as int]);
            }
            self.update_panel_rect(id, rect);
            i += 1;
        }
        assert(rects@.take(i as int) =~= rects@);
        self.selected_layout_idx = index;
    }

    /// Whether every panel has a rectangle; until then the tool applies the
    /// active layout each frame.
    pub fn all_panels_placed(&self) -> (r: bool)
        requires
            self.wf(),
        ensures
            r == (forall|id: PanelId| self@.contains_key(id)),
    {
        let mut i: usize = 0;
        while i < self.panels.len()
            invariant
                i <= self.panels.len(),
                self.wf(),
                forall|k: int| 0 <= k < i ==> self.panels@[k] is Some,
            decreases self.panels.len() - i,
        {
            if self.panels[i].is_none() {
                proof {
                    let id = panel_at(i as int);
                    assert(!self@.contains_key(id));
                }
                return false;
            }
            i += 1;
        }
        proof {
            assert forall|id: PanelId| self@.contains_key(id) by {
                lemma_slot_injective(id, id);
            }
        }
        true
    }
}

/// The panel at position `k`.
spec fn panel_at(k: int) -> PanelId {
    if k == 0 {
        PanelId::Console
    } else if k == 1 {
        PanelId::Field
    } else if k == 2 {
        PanelId::FieldPlayback
    } else if k == 3 {
        PanelId::Graph
    } else if k == 4 {
        PanelId::RawPlayback
    } else if k == 5 {
        PanelId::RawSerial
    } else if k == 6 {
        PanelId::SerialSettings
    } else {
        PanelId::WindowLayouts
    }
}

impl Default for WindowConfig {
    /// Only the layout selector has a rectangle, the fallback one, so that
    /// it shows before the first layout is applied.
    fn default() -> (r: Self)
        ensures
            r.wf(),
            r@ == map![PanelId::WindowLayouts => LAYOUT_WINDOW_LAYOUTS_FALLBACK],
            r.selected_layout_idx == 0,
            r.layout_locked,
    {
        let mut panels: Vec<Option<[u32; 4]>> = Vec::new();
        let mut i: usize = 0;
        while i < PANEL_COUNT
            invariant
                i <= PANEL_COUNT,
                panels@.len() == i,
                forall|k: int| 0 <= k < i ==> panels@[k] is None,
            decreases PANEL_COUNT - i,
        {
            panels.push(None);
            i += 1;
        }
        let ghost empty = WindowConfig { panels, selected_layout_idx: 0, layout_locked: true };
        proof {
            assert(empty@ =~= Map::<PanelId, [u32; 4]>::empty());
        }
        let mut cfg = WindowConfig { panels, selected_layout_idx: 0, layout_locked: true };
        cfg.update_panel_rect(PanelId::WindowLayouts, LAYOUT_WINDOW_LAYOUTS_FALLBACK);
        assert(cfg@ =~= map![PanelId::WindowLayouts => LAYOUT_WINDOW_LAYOUTS_FALLBACK]);
        cfg
    }
}


/// A panel's rectangle reads back as last written, and writing one panel's
/// rectangle leaves every other panel as it was.
pub proof fn lemma_update_reads_back(
    before: Map<PanelId, [u32; 4]>,
    id: PanelId,
    rect: [u32; 4],
    other: PanelId,
)
    ensures
        before.insert(id, rect).contains_key(id),
        before.insert(id, rect)[id] == rect,
        other != id ==> before.insert(id, rect).contains_key(other) == before.contains_key(other),
        other != id && before.contains_key(other) ==> before.insert(id, rect)[other]
            == before[other],
{
}

} // verus!
