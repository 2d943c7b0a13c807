//! Identifies every managed panel of the tool.

use vstd::prelude::*;

verus! {

/// Every managed panel of the tool.
#[derive(Debug, Clone, Copy, PartialEq, Eq, Hash, Structural)]
pub enum PanelId {
    Console,
    Field,
    FieldPlayback,
    Graph,
    RawPlayback,
    RawSerial,
    SerialSettings,
    WindowLayouts,
}

/// How many panels there are.
pub const PANEL_COUNT: usize = 8;

impl PanelId {
    /// The position of the panel in declaration order.
    pub open spec fn slot(self) -> int {
        match self {
            PanelId::Console => 0,
            PanelId::Field => 1,
            PanelId::FieldPlayback => 2,
            PanelId::Graph => 3,
            PanelId::RawPlayback => 4,
            PanelId::RawSerial => 5,
            PanelId::SerialSettings => 6,
            PanelId::WindowLayouts => 7,
        }
    }

    /// The position of the panel in declaration order.
    pub fn index(self) -> (r: usize)
        ensures
            r == self.slot(),
            r < PANEL_COUNT,
    {
        match self {
            PanelId::Console => 0,
            PanelId::Field => 1,
            PanelId::FieldPlayback => 2,
            PanelId::Graph => 3,
            PanelId::RawPlayback => 4,
            PanelId::RawSerial => 5,
            PanelId::SerialSettings => 6,
            PanelId::WindowLayouts => 7,
        }
    }
}

/// Distinct panels have distinct positions.
pub proof fn lemma_slot_injective(a: PanelId, b: PanelId)
    ensures
        a.slot() == b.slot() ==> a == b,
        0 <= a.slot() < PANEL_COUNT,
{
}

} // verus!
