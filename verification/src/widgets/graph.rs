//! A closable plot of recent samples.

use vstd::prelude::*;
use crate::windows::graph::pushed_capped;

verus! {

/// How many samples the plot shows.
pub const MAX_SAMPLES: usize = 200;

/// A closable plot and its samples (`f64` bit patterns), oldest first.
pub struct GraphWindow {
    pub open: bool,
    pub values: Vec<u64>,
}

impl GraphWindow {
    /// An open, empty plot.
    pub fn new() -> (r: Self)
        ensures
            r.open,
            r.values@ == Seq::<u64>::empty(),
    {
        GraphWindow { open: true, values: Vec::new() }
    }

    /// Appends a sample, keeping every sample.
    pub fn push(&mut self, v: u64)
        ensures
            final(self).values@ == old(self).values@.push(v),
            final(self).open == old(self).open,
    {
        self.values.push(v);
    }

    /// Appends the sample drawn this frame, dropping the oldest beyond
    /// `MAX_SAMPLES`.
    pub fn record_sample(&mut self, v: u64)
        ensures
            final(self).values@ == pushed_capped(old(self).values@, v, MAX_SAMPLES as nat),
            final(self).open == old(self).open,
    {
        self.values.push(v);
        if self.values.len() > MAX_SAMPLES {
            self.values.remove(0);
            assert(self.values@ =~= old(self).values@.push(v).drop_first());
        }
    }

    /// The plot's title.
    pub fn title(&self) -> (r: &str)
        ensures
            r@ == "Graph"@,
    {
        "Graph"
    }

    /// The flag that tells whether the plot is shown.
    pub fn open(&mut self) -> (r: &mut bool)
        ensures
            *r == old(self).open,
            final(self).open == *final(r),
            final(self).values == old(self).values,
    {
        &mut self.open
    }
}

} // verus!
