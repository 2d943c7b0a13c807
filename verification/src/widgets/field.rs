//! A closable field sketch.

use vstd::prelude::*;

verus! {

/// A closable field sketch.
pub struct FieldWindow {
    pub open: bool,
}

impl FieldWindow {
    /// An open sketch.
    pub fn new() -> (r: Self)
        ensures
            r.open,
    {
        FieldWindow { open: true }
    }

    /// The sketch's title.
    pub fn title(&self) -> (r: &str)
        ensures
            r@ == "Soccer Field"@,
    {
        "Soccer Field"
    }

    /// The flag that tells whether the sketch is shown.
    pub fn open(&mut self) -> (r: &mut bool)
        ensures
            *r == old(self).open,
            final(self).open == *final(r),
    {
        &mut self.open
    }
}

} // verus!
