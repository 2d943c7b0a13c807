//! The graph panel's sample history.

use vstd::prelude::*;
use crate::text::keep_last;

verus! {

/// How many samples the graph keeps.
pub const MAX_VALUES: usize = 1000;

/// The graph panel: the latest samples (`f32` bit patterns), oldest first.
pub struct GraphWindow {
    pub values: Vec<u32>,
}

/// `s` with `v` appended, dropping the oldest sample when that makes it
/// longer than `cap`.
pub open spec fn pushed_capped<T>(s: Seq<T>, v: T, cap: nat) -> Seq<T> {
    if s.len() + 1 > cap {
        s.push(v).drop_first()
    } else {
        s.push(v)
    }
}

impl GraphWindow {
    pub fn new() -> (r: Self)
        ensures
            r.values@ == Seq::<u32>::empty(),
    {
        GraphWindow { values: Vec::new() }
    }

    /// Appends a sample, dropping the oldest beyond `MAX_VALUES`.
    pub fn push_value(&mut self, v: u32)
        ensures
            final(self).values@ == pushed_capped(old(self).values@, v, MAX_VALUES as nat),
    {
        self.values.push(v);
        if self.values.len() > MAX_VALUES {
            self.values.remove(0);
            assert(self.values@ =~= old(self).values@.push(v).drop_first());
        }
    }
}

/// A history that is at most `cap` long stays so, and its newest sample is
/// the one just pushed.
pub proof fn lemma_pushed_capped_bounded<T>(s: Seq<T>, v: T, cap: nat)
    requires
        s.len() <= cap,
        cap > 0,
    ensures
        pushed_capped(s, v, cap).len() <= cap,
        pushed_capped(s, v, cap).last() == v,
        pushed_capped(s, v, cap) == keep_last(s.push(v), cap),
{
    if s.len() + 1 > cap {
        assert(s.push(v).drop_first() =~= s.push(v).subrange(s.len() + 1 - cap, (s.len() + 1) as int));
    }
}

} // verus!
