//! A record of the frame callbacks fired, in the order they fired.

use vstd::prelude::*;

use crate::animation::ticker::TickCallback;

verus! {

/// The callbacks fired through this log, in firing order. The log only
/// grows by firing a callback: nothing else can add to it or reorder it.
pub struct FireLog {
    fired: Ghost<Seq<TickCallback>>,
}

impl FireLog {
    /// The callbacks fired through this log so far, oldest first.
    pub closed spec fn fired(&self) -> Seq<TickCallback> {
        self.fired@
    }

    /// A log with nothing fired yet.
    pub fn new() -> (res: Self)
        ensures
            res.fired() == Seq::<TickCallback>::empty(),
    {
        FireLog { fired: Ghost(Seq::empty()) }
    }

    /// Fire `cb` once and record it as the latest callback fired.
    pub fn fire(&mut self, cb: &TickCallback)
        ensures
            final(self).fired() == old(self).fired().push(*cb),
    {
        cb.fire();
        self.fired = Ghost(self.fired@.push(*cb));
    }
}

} // verus!
