//! Child-tree operations that elements request during their lifecycle.

use vstd::prelude::*;

use crate::id::ElementKey;

verus! {

/// A command emitted by an element to request a child tree operation.
/// The pipeline executes these after the element method returns.
///
/// `W` is the widget type that describes the child.
pub enum ChildOp<W> {
    /// Mount a new child element at the given slot
    Inflate { slot: Option<usize>, widget: W, parent: ElementKey },
    /// Update an existing child element with a new widget
    Update { child: ElementKey, widget: W },
    /// Unmount a child element
    Unmount { child: ElementKey },
}

/// Accumulator for child operations emitted during element lifecycle methods.
/// Elements push ops here instead of directly accessing the element registry.
pub struct ChildOps<W> {
    ops: Vec<ChildOp<W>>,
}

impl<W> ChildOps<W> {
    /// The pending operations, oldest first.
    pub closed spec fn pending(&self) -> Seq<ChildOp<W>> {
        self.ops@
    }

    pub fn new() -> (res: Self)
        ensures
            res.pending() == Seq::<ChildOp<W>>::empty(),
    {
        ChildOps { ops: Vec::new() }
    }

    /// Request inflation of a new child element.
    pub fn inflate(&mut self, slot: Option<usize>, widget: W, parent: ElementKey)
        ensures
            final(self).pending() == old(self).pending().push(
                ChildOp::Inflate { slot, widget, parent },
            ),
    {
        self.ops.push(ChildOp::Inflate { slot, widget, parent });
    }

    /// Request update of an existing child element.
    pub fn update(&mut self, child: ElementKey, widget: W)
        ensures
            final(self).pending() == old(self).pending().push(ChildOp::Update { child, widget }),
    {
        self.ops.push(ChildOp::Update { child, widget });
    }

    /// Request unmount of a child element.
    pub fn unmount(&mut self, child: ElementKey)
        ensures
            final(self).pending() == old(self).pending().push(ChildOp::Unmount { child }),
    {
        self.ops.push(ChildOp::Unmount { child });
    }

    /// Drain all pending operations, leaving the accumulator empty.
    pub fn drain(&mut self) -> (ops: Vec<ChildOp<W>>)
        ensures
            ops@ == old(self).pending(),
            final(self).pending() == Seq::<ChildOp<W>>::empty(),
    {
        let mut ops: Vec<ChildOp<W>> = Vec::new();
        std::mem::swap(&mut ops, &mut self.ops);
        ops
    }

    /// Check if there are any pending operations.
    pub fn is_empty(&self) -> (res: bool)
        ensures
            res == (self.pending().len() == 0),
    {
        self.ops.len() == 0
    }
}

impl<W> Default for ChildOps<W> {
    fn default() -> (res: Self)
        ensures
            res.pending() == Seq::<ChildOp<W>>::empty(),
    {
        Self::new()
    }
}

/// Requests accumulate in call order: when the accumulator starts empty (as
/// after `new` or `drain`) and `inflate`, `update` or `unmount` is called
/// once per entry of `ops`, each appending that op and taking it through
/// `states`, the pending list is exactly `ops`, which the next `drain`
/// returns.
pub proof fn lemma_requests_drain_in_order<W>(states: Seq<ChildOps<W>>, ops: Seq<ChildOp<W>>)
    requires
        states.len() == ops.len() + 1,
        states[0].pending() == Seq::<ChildOp<W>>::empty(),
        forall|i: int|
            0 <= i < ops.len() ==> #[trigger] states[i + 1].pending() == states[i].pending().push(ops[i]),
    ensures
        states.last().pending() == ops,
    decreases ops.len(),
{
    if ops.len() == 0 {
        assert(ops =~= Seq::<ChildOp<W>>::empty());
    } else {
        let n = ops.len() as int;
        let prev_states = states.take(n);
        let prev_ops = ops.take(n - 1);
        assert forall|i: int| 0 <= i < prev_ops.len() implies #[trigger] prev_states[i + 1].pending()
            == prev_states[i].pending().push(prev_ops[i]) by {
            assert(states[i + 1].pending() == states[i].pending().push(ops[i]));
        }
        lemma_requests_drain_in_order(prev_states, prev_ops);
        assert(prev_states.last() == states[n - 1]);
        assert(states[n].pending() == states[n - 1].pending().push(ops[n - 1]));
        assert(ops =~= prev_ops.push(ops[n - 1]));
    }
}

} // verus!
