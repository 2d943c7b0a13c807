//! The layout selector panel. The layouts themselves are rectangles in
//! floating point and live outside the library.

use vstd::prelude::*;

verus! {

/// The rectangle given to the layout selector before any layout is applied:
/// `[80.0, 80.0, 320.0, 360.0]`.
pub const LAYOUT_WINDOW_LAYOUTS_FALLBACK: [u32; 4] = [0x42A0_0000, 0x42A0_0000, 0x43A0_0000, 0x43B4_0000];

/// The layout selector; it keeps nothing of its own.
pub struct LayoutWindow;

impl LayoutWindow {
    pub fn new() -> Self {
        LayoutWindow
    }
}

} // verus!
