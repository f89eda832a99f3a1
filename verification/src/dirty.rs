//! Tracking of render objects that need layout or paint.

use std::collections::HashSet;
use vstd::prelude::*;
use vstd::std_specs::hash::spec_hash_keys_iter;
use vstd::std_specs::iter::IteratorSpec;

use crate::id::RenderObjectKey;

verus! {

/// The keys of a sequence, by their 64-bit values.
pub open spec fn render_keys_raw(keys: Seq<RenderObjectKey>) -> Seq<u64> {
    keys.map_values(|k: RenderObjectKey| k.0)
}

/// Tracks which render objects need layout or paint.
pub struct DirtyTracking {
    needs_layout: HashSet<u64>,
    needs_paint: HashSet<u64>,
    /// Set to true when mark_needs_layout/mark_needs_paint transitions
    /// a dirty set from empty to non-empty. Signals that a frame is needed.
    frame_request_needed: bool,
}

impl DirtyTracking {
    /// Keys (by value) of the render objects that need layout.
    pub closed spec fn layout_set(&self) -> Set<u64> {
        self.needs_layout@
    }

    /// Keys (by value) of the render objects that need paint.
    pub closed spec fn paint_set(&self) -> Set<u64> {
        self.needs_paint@
    }

    /// Whether a frame has been requested since the flag was last taken.
    pub closed spec fn frame_requested(&self) -> bool {
        self.frame_request_needed
    }

    /// Both sets are finite.
    pub open spec fn wf(&self) -> bool {
        &&& self.layout_set().finite()
        &&& self.paint_set().finite()
    }

    /// Create a new empty dirty tracking.
    pub fn new() -> (res: Self)
        ensures
            res.wf(),
            res.layout_set() == Set::<u64>::empty(),
            res.paint_set() == Set::<u64>::empty(),
            !res.frame_requested(),
    {
        DirtyTracking {
            needs_layout: HashSet::new(),
            needs_paint: HashSet::new(),
            frame_request_needed: false,
        }
    }

    /// Mark a render object as needing layout.
    pub fn mark_needs_layout(&mut self, key: RenderObjectKey)
        requires
            old(self).wf(),
        ensures
            final(self).wf(),
            final(self).layout_set() == old(self).layout_set().insert(key.0),
            final(self).layout_set().len() == old(self).layout_set().len() + (if old(self).layout_set().contains(key.0) { 0int } else { 1int }),
            final(self).paint_set() == old(self).paint_set(),
            final(self).frame_requested() == (old(self).frame_requested() || old(self).layout_set().is_empty()),
    {
        let was_empty = self.needs_layout.is_empty();
        self.needs_layout.insert(key.0);
        if was_empty {
            self.frame_request_needed = true;
        }
    }

    /// Mark a render object as needing paint.
    pub fn mark_needs_paint(&mut self, key: RenderObjectKey)
        requires
            old(self).wf(),
        ensures
            final(self).wf(),
            final(self).paint_set() == old(self).paint_set().insert(key.0),
            final(self).paint_set().len() == old(self).paint_set().len() + (if old(self).paint_set().contains(key.0) { 0int } else { 1int }),
            final(self).layout_set() == old(self).layout_set(),
            final(self).frame_requested() == (old(self).frame_requested() || old(self).paint_set().is_empty()),
    {
        let was_empty = self.needs_paint.is_empty();
        self.needs_paint.insert(key.0);
        if was_empty {
            self.frame_request_needed = true;
        }
    }

    /// Check if a render object needs layout.
    pub fn needs_layout(&self, key: RenderObjectKey) -> (res: bool)
        ensures
            res == self.layout_set().contains(key.0),
    {
        self.needs_layout.contains(&key.0)
    }

    /// Check if a render object needs paint.
    pub fn needs_paint(&self, key: RenderObjectKey) -> (res: bool)
        ensures
            res == self.paint_set().contains(key.0),
    {
        self.needs_paint.contains(&key.0)
    }

    /// Clear layout dirty flag for a render object.
    pub fn clear_layout(&mut self, key: RenderObjectKey)
        requires
            old(self).wf(),
        ensures
            final(self).wf(),
            final(self).layout_set() == old(self).layout_set().remove(key.0),
            final(self).layout_set().len() == old(self).layout_set().len() - (if old(self).layout_set().contains(key.0) { 1int } else { 0int }),
            final(self).paint_set() == old(self).paint_set(),
            final(self).frame_requested() == old(self).frame_requested(),
    {
        self.needs_layout.remove(&key.0);
    }

    /// Clear paint dirty flag for a render object.
    pub fn clear_paint(&mut self, key: RenderObjectKey)
        requires
            old(self).wf(),
        ensures
            final(self).wf(),
            final(self).paint_set() == old(self).paint_set().remove(key.0),
            final(self).paint_set().len() == old(self).paint_set().len() - (if old(self).paint_set().contains(key.0) { 1int } else { 0int }),
            final(self).layout_set() == old(self).layout_set(),
            final(self).frame_requested() == old(self).frame_requested(),
    {
        self.needs_paint.remove(&key.0);
    }

    /// Check if there are any objects needing layout.
    pub fn is_layout_empty(&self) -> (res: bool)
        ensures
            res == self.layout_set().is_empty(),
    {
        self.needs_layout.is_empty()
    }

    /// Returns true if a frame is needed due to dirty state changes,
    /// and clears the flag.
    pub fn take_frame_request_needed(&mut self) -> (needed: bool)
        ensures
            needed == old(self).frame_requested(),
            !final(self).frame_requested(),
            final(self).layout_set() == old(self).layout_set(),
            final(self).paint_set() == old(self).paint_set(),
            final(self).wf() == old(self).wf(),
    {
        let needed = self.frame_request_needed;
        self.frame_request_needed = false;
        needed
    }

    /// Check if there are any objects needing paint.
    pub fn is_paint_empty(&self) -> (res: bool)
        ensures
            res == self.paint_set().is_empty(),
    {
        self.needs_paint.is_empty()
    }

    /// Drain all objects needing layout: every key once, in no fixed order.
    pub fn drain_layout(&mut self) -> (keys: Vec<RenderObjectKey>)
        requires
            old(self).wf(),
        ensures
            final(self).wf(),
            render_keys_raw(keys@).to_set() == old(self).layout_set(),
            render_keys_raw(keys@).no_duplicates(),
            keys@.len() == old(self).layout_set().len(),
            final(self).layout_set() == Set::<u64>::empty(),
            final(self).paint_set() == old(self).paint_set(),
            final(self).frame_requested() == old(self).frame_requested(),
    {
        let keys = drain_set(&mut self.needs_layout);
        keys
    }

    /// Drain all objects needing paint: every key once, in no fixed order.
    pub fn drain_paint(&mut self) -> (keys: Vec<RenderObjectKey>)
        requires
            old(self).wf(),
        ensures
            final(self).wf(),
            render_keys_raw(keys@).to_set() == old(self).paint_set(),
            render_keys_raw(keys@).no_duplicates(),
            keys@.len() == old(self).paint_set().len(),
            final(self).paint_set() == Set::<u64>::empty(),
            final(self).layout_set() == old(self).layout_set(),
            final(self).frame_requested() == old(self).frame_requested(),
    {
        let keys = drain_set(&mut self.needs_paint);
        keys
    }

    /// Clear all dirty flags.
    pub fn clear(&mut self)
        ensures
            final(self).wf(),
            final(self).layout_set() == Set::<u64>::empty(),
            final(self).paint_set() == Set::<u64>::empty(),
            final(self).frame_requested() == old(self).frame_requested(),
    {
        self.needs_layout.clear();
        self.needs_paint.clear();
    }

    /// Get the count of objects needing layout.
    pub fn layout_count(&self) -> (n: usize)
        requires
            self.wf(),
        ensures
            n == self.layout_set().len(),
    {
        self.needs_layout.len()
    }

    /// Get the count of objects needing paint.
    pub fn paint_count(&self) -> (n: usize)
        requires
            self.wf(),
        ensures
            n == self.paint_set().len(),
    {
        self.needs_paint.len()
    }
}

/// Take every key out of `set`, leaving it empty.
fn drain_set(set: &mut HashSet<u64>) -> (keys: Vec<RenderObjectKey>)
    requires
        old(set)@.finite(),
    ensures
        render_keys_raw(keys@).to_set() == old(set)@,
        render_keys_raw(keys@).no_duplicates(),
        keys@.len() == old(set)@.len(),
        final(set)@ == Set::<u64>::empty(),
{
    let mut keys: Vec<RenderObjectKey> = Vec::new();
    let ghost items = spec_hash_keys_iter(&*set).remaining().unref();
    for k in it: set.iter()
        invariant
            it.seq().unref() == items,
            render_keys_raw(keys@) == items.take(it.index() as int),
    {
        let ghost before = keys@;
        keys.push(RenderObjectKey(*k));
        proof {
            assert(render_keys_raw(before).len() == before.len());
        }
    }
    proof {
        assert(items.take(items.len() as int) =~= items);
    }
    set.clear();
    keys
}

impl Default for DirtyTracking {
    fn default() -> (res: Self)
        ensures
            res.wf(),
            res.layout_set() == Set::<u64>::empty(),
            res.paint_set() == Set::<u64>::empty(),
            !res.frame_requested(),
    {
        Self::new()
    }
}

} // verus!
