//! Build owner for tracking dirty elements and driving targeted rebuilds.
//!
//! Dirty elements are sorted by tree depth before rebuild so that parents
//! always rebuild before children: a parent's rebuild may change which
//! children exist, so children must not rebuild until the parent has
//! reconciled its subtree.

use std::collections::HashSet;
use vstd::prelude::*;

use crate::element::{chain_length_is, lemma_chain_length_unique, lemma_child_depth, ElementEntry};
use crate::id::ElementKey;
use crate::ui_core::geometry::{KeyboardInsetSource, SafeAreaSource};

verus! {

/// The 64-bit values of a sequence of element keys.
pub open spec fn raw_keys(keys: Seq<ElementKey>) -> Seq<u64> {
    keys.map_values(|k: ElementKey| k.raw())
}

/// The dirty list after marking `key`: unchanged when `key` is already in it,
/// otherwise `key` appended at the end.
pub open spec fn marked(dirty: Seq<ElementKey>, key: ElementKey) -> Seq<ElementKey> {
    if dirty.contains(key) {
        dirty
    } else {
        dirty.push(key)
    }
}

/// `sorted` is `unsorted` (a list without repeats) reordered by the depths
/// `depths` (one per entry of `sorted`): shallowest first, and among equal
/// depths in the order of `unsorted`.
pub open spec fn stably_sorted_by(
    unsorted: Seq<ElementKey>,
    sorted: Seq<ElementKey>,
    depths: Seq<usize>,
) -> bool {
    &&& sorted.len() == unsorted.len()
    &&& depths.len() == sorted.len()
    &&& sorted.no_duplicates()
    &&& sorted.to_set() == unsorted.to_set()
    &&& forall|i: int, j: int| 0 <= i < j < sorted.len() ==> depths[i] <= depths[j]
    &&& forall|i: int, j: int, a: int, b: int|
        0 <= i < j < sorted.len() && depths[i] == depths[j] && 0 <= a < unsorted.len() && 0 <= b
            < unsorted.len() && unsorted[a] == sorted[i] && unsorted[b] == sorted[j] ==> a < b
}

/// Tracks dirty elements and drives targeted rebuilds.
///
/// Dirty elements are kept in a `Vec` for ordering (sorted by depth before
/// rebuild) and a `HashSet` for O(1) membership checks.
pub struct BuildOwner {
    /// Elements that need rebuild, in insertion order.
    dirty_elements: Vec<ElementKey>,
    /// Key values of `dirty_elements`, for O(1) membership checks.
    dirty_set: HashSet<u64>,
    /// Key values of the elements in the current build scope.
    building: HashSet<u64>,
    /// The currently focused element, if any.
    focused_element: Option<ElementKey>,
    /// Deferred unfocus request, applied by the pipeline after rebuilding.
    pending_unfocus: bool,
    /// Device safe-area insets, shared with every render context.
    safe_area_source: SafeAreaSource,
    /// Keyboard inset, shared with every render context.
    keyboard_inset_source: KeyboardInsetSource,
}

impl BuildOwner {
    /// The dirty elements, in the order they will be drained.
    pub closed spec fn dirty(&self) -> Seq<ElementKey> {
        self.dirty_elements@
    }

    /// Key values of the elements in the current build scope.
    pub closed spec fn building_set(&self) -> Set<u64> {
        self.building@
    }

    pub closed spec fn focused(&self) -> Option<ElementKey> {
        self.focused_element
    }

    pub closed spec fn unfocus_pending(&self) -> bool {
        self.pending_unfocus
    }

    /// The safe-area cell this owner hands to render contexts.
    pub closed spec fn safe_area(&self) -> SafeAreaSource {
        self.safe_area_source
    }

    /// The keyboard-inset cell this owner hands to render contexts.
    pub closed spec fn keyboard_inset(&self) -> KeyboardInsetSource {
        self.keyboard_inset_source
    }

    /// The membership set mirrors the dirty list, which holds no key twice.
    pub closed spec fn wf(&self) -> bool {
        &&& self.dirty_set@ == raw_keys(self.dirty_elements@).to_set()
        &&& self.dirty_elements@.no_duplicates()
        &&& self.building@.finite()
    }

    /// Create a new empty build owner.
    pub fn new() -> (res: Self)
        ensures
            res.wf(),
            res.dirty() == Seq::<ElementKey>::empty(),
            res.building_set() == Set::<u64>::empty(),
            res.focused() is None,
            !res.unfocus_pending(),
    {
        let res = BuildOwner {
            dirty_elements: Vec::new(),
            dirty_set: HashSet::new(),
            building: HashSet::new(),
            focused_element: None,
            pending_unfocus: false,
            safe_area_source: SafeAreaSource::default(),
            keyboard_inset_source: KeyboardInsetSource::default(),
        };
        assert(raw_keys(res.dirty_elements@).to_set() =~= Set::<u64>::empty());
        res
    }

    /// Membership of `key` in the dirty list, read off the key values.
    proof fn lemma_contains_raw(&self, key: ElementKey)
        requires
            self.wf(),
        ensures
            self.dirty_set@.contains(key.raw()) == self.dirty().contains(key),
    {
        let raws = raw_keys(self.dirty_elements@);
        if self.dirty_set@.contains(key.raw()) {
            let i = choose|i: int| 0 <= i < raws.len() && raws[i] == key.raw();
            self.dirty_elements@[i].lemma_raw_injective(key);
        }
        if self.dirty().contains(key) {
            let i = choose|i: int| 0 <= i < self.dirty_elements@.len() && self.dirty_elements@[i] == key;
            assert(raws[i] == key.raw());
        }
    }

    /// Mark an element as needing rebuild.
    ///
    /// Idempotent: marking the same element again leaves the list as it is.
    pub fn mark_needs_build(&mut self, element_id: ElementKey)
        requires
            old(self).wf(),
        ensures
            final(self).wf(),
            final(self).dirty() == marked(old(self).dirty(), element_id),
            final(self).building_set() == old(self).building_set(),
            final(self).focused() == old(self).focused(),
            final(self).unfocus_pending() == old(self).unfocus_pending(),
            final(self).safe_area() == old(self).safe_area(),
            final(self).keyboard_inset() == old(self).keyboard_inset(),
    {
        proof { self.lemma_contains_raw(element_id); }
        let ghost set_before = self.dirty_set@;
        if self.dirty_set.insert(element_id.as_raw()) {
            let ghost before = self.dirty_elements@;
            self.dirty_elements.push(element_id);
            proof {
                assert(raw_keys(self.dirty_elements@) =~= raw_keys(before).push(element_id.raw()));
                raw_keys(before).lemma_push_to_set_commute(element_id.raw());
            }
        } else {
            assert(self.dirty_set@ =~= set_before);
        }
    }

    /// Check if an element is marked as dirty.
    pub fn is_dirty(&self, element_id: ElementKey) -> (res: bool)
        requires
            self.wf(),
        ensures
            res == self.dirty().contains(element_id),
    {
        proof { self.lemma_contains_raw(element_id); }
        self.dirty_set.contains(&element_id.as_raw())
    }

    /// Check if there are any pending rebuilds.
    pub fn has_pending_rebuilds(&self) -> (res: bool)
        requires
            self.wf(),
        ensures
            res == (self.dirty().len() > 0),
    {
        proof { self.lemma_count(); }
        !self.dirty_set.is_empty()
    }

    /// The membership set has as many keys as the dirty list.
    proof fn lemma_count(&self)
        requires
            self.wf(),
        ensures
            self.dirty_set@.len() == self.dirty().len(),
            self.dirty_set@.finite(),
    {
        let raws = raw_keys(self.dirty_elements@);
        assert forall|i: int, j: int| 0 <= i < raws.len() && 0 <= j < raws.len() && i != j implies raws[i] != raws[j] by {
            self.dirty_elements@[i].lemma_raw_injective(self.dirty_elements@[j]);
        }
        raws.unique_seq_to_set();
    }

    /// Get the number of dirty elements.
    pub fn dirty_count(&self) -> (n: usize)
        requires
            self.wf(),
        ensures
            n == self.dirty().len(),
    {
        proof { self.lemma_count(); }
        self.dirty_set.len()
    }

    /// Sort dirty elements by tree depth (parents before children), keeping
    /// the marking order among elements of equal depth.
    ///
    /// `depth` is asked once for each dirty element; the result is ordered by
    /// the depths it gave.
    pub fn sort_dirty_by_depth<F: FnMut(ElementKey) -> usize>(&mut self, mut depth: F)
        requires
            old(self).wf(),
            forall|k: ElementKey| old(self).dirty().contains(k) ==> call_requires(depth, (k,)),
        ensures
            final(self).wf(),
            exists|depths: Seq<usize>|
                {
                    &&& stably_sorted_by(old(self).dirty(), final(self).dirty(), depths)
                    &&& forall|i: int|
                        0 <= i < depths.len() ==> call_ensures(
                            depth,
                            (final(self).dirty()[i],),
                            #[trigger] depths[i],
                        )
                },
            final(self).building_set() == old(self).building_set(),
            final(self).focused() == old(self).focused(),
            final(self).unfocus_pending() == old(self).unfocus_pending(),
            final(self).safe_area() == old(self).safe_area(),
            final(self).keyboard_inset() == old(self).keyboard_inset(),
    {
        let n = self.dirty_elements.len();
        let ghost orig = self.dirty_elements@;
        let ghost asked = depth;
        // The depth of each dirty element, asked once per element.
        let mut ds: Vec<usize> = Vec::new();
        assert forall|j: int| 0 <= j < n implies call_requires(depth, (#[trigger] orig[j],)) by {
            assert(old(self).dirty()[j] == orig[j]);
            assert(old(self).dirty().contains(orig[j]));
        }
        for i in 0..n
            invariant
                n == orig.len(),
                self.dirty_elements@ == orig,
                depth == asked,
                forall|j: int| 0 <= j < n ==> call_requires(depth, (#[trigger] orig[j],)),
                ds@.len() == i,
                forall|j: int| 0 <= j < i ==> call_ensures(asked, (orig[j],), #[trigger] ds@[j]),
        {
            let d = depth(self.dirty_elements[i]);
            ds.push(d);
        }
        // Positions of the elements in sorted order: a stable insertion sort.
        let mut order: Vec<usize> = Vec::new();
        for i in 0..n
            invariant
                n == orig.len(),
                ds@.len() == n,
                order@.len() == i,
                forall|q: int| 0 <= q < order@.len() ==> #[trigger] order@[q] < i,
                order@.no_duplicates(),
                forall|j: int| 0 <= j < i ==> #[trigger] order@.contains(j as usize),
                forall|a: int, b: int|
                    0 <= a < b < order@.len() ==> ds@[order@[a] as int] <= ds@[order@[b] as int],
                forall|a: int, b: int|
                    0 <= a < b < order@.len() && ds@[order@[a] as int] == ds@[order@[b] as int]
                        ==> order@[a] < order@[b],
        {
            let d = ds[i];
            let mut p = order.len();
            while p > 0 && ds[order[p - 1]] > d
                invariant
                    p <= order@.len(),
                    order@.len() == i,
                    i < n,
                    ds@.len() == n,
                    d == ds@[i as int],
                    forall|q: int| 0 <= q < order@.len() ==> #[trigger] order@[q] < i,
                    forall|q: int| p <= q < order@.len() ==> ds@[order@[q] as int] > d,
                decreases p,
            {
                p = p - 1;
            }
            let ghost before = order@;
            order.insert(p, i);
            proof {
                assert forall|j: int| 0 <= j < i + 1 implies #[trigger] order@.contains(j as usize) by {
                    if j < i {
                        assert(before.contains(j as usize));
                        let q = choose|q: int| 0 <= q < before.len() && before[q] == j as usize;
                        if q < p {
                            assert(order@[q] == j as usize);
                        } else {
                            assert(order@[q + 1] == j as usize);
                        }
                    } else {
                        assert(order@[p as int] == j as usize);
                    }
                }
            }
        }
        // Lay the elements out in sorted order.
        let mut sorted: Vec<ElementKey> = Vec::new();
        let mut sorted_depths: Vec<usize> = Vec::new();
        for k in 0..n
            invariant
                n == orig.len(),
                self.dirty_elements@ == orig,
                ds@.len() == n,
                order@.len() == n,
                forall|q: int| 0 <= q < n ==> #[trigger] order@[q] < n,
                sorted@.len() == k,
                sorted_depths@.len() == k,
                forall|q: int| 0 <= q < k ==> #[trigger] sorted@[q] == orig[order@[q] as int],
                forall|q: int| 0 <= q < k ==> #[trigger] sorted_depths@[q] == ds@[order@[q] as int],
        {
            let idx = order[k];
            sorted.push(self.dirty_elements[idx]);
            sorted_depths.push(ds[idx]);
        }
        proof {
            let final_seq = sorted@;
            assert forall|e: ElementKey| final_seq.to_set().contains(e) == orig.to_set().contains(e) by {
                if orig.to_set().contains(e) {
                    let j = choose|j: int| 0 <= j < orig.len() && orig[j] == e;
                    assert(order@.contains(j as usize));
                    let q = choose|q: int| 0 <= q < order@.len() && order@[q] == j as usize;
                    assert(final_seq[q] == e);
                }
            }
            assert(final_seq.to_set() =~= orig.to_set());
            // The membership set is unchanged: same keys.
            assert(raw_keys(final_seq).to_set() =~= raw_keys(orig).to_set()) by {
                assert forall|r: u64| raw_keys(final_seq).to_set().contains(r) == raw_keys(orig).to_set().contains(r) by {
                    if raw_keys(final_seq).to_set().contains(r) {
                        let q = choose|q: int| 0 <= q < final_seq.len() && raw_keys(final_seq)[q] == r;
                        let j = choose|j: int| 0 <= j < orig.len() && orig[j] == final_seq[q];
                        assert(raw_keys(orig)[j] == r);
                    }
                    if raw_keys(orig).to_set().contains(r) {
                        let j = choose|j: int| 0 <= j < orig.len() && raw_keys(orig)[j] == r;
                        assert(final_seq.to_set().contains(orig[j]));
                        let q = choose|q: int| 0 <= q < final_seq.len() && final_seq[q] == orig[j];
                        assert(raw_keys(final_seq)[q] == r);
                    }
                }
            }
        }
        let ghost witness = sorted_depths@;
        self.dirty_elements = sorted;
        assert(stably_sorted_by(old(self).dirty(), self.dirty(), witness));
    }

    /// Drain dirty elements in depth order.
    ///
    /// Call `sort_dirty_by_depth()` first so that parents come before
    /// children. Clears both the list and the set.
    pub fn drain_dirty_sorted(&mut self) -> (drained: Vec<ElementKey>)
        requires
            old(self).wf(),
        ensures
            final(self).wf(),
            drained@ == old(self).dirty(),
            final(self).dirty() == Seq::<ElementKey>::empty(),
            final(self).building_set() == old(self).building_set(),
            final(self).focused() == old(self).focused(),
            final(self).unfocus_pending() == old(self).unfocus_pending(),
            final(self).safe_area() == old(self).safe_area(),
            final(self).keyboard_inset() == old(self).keyboard_inset(),
    {
        self.take_dirty()
    }

    /// Drain dirty elements, returning them for processing, in marking order.
    pub fn drain_dirty(&mut self) -> (drained: Vec<ElementKey>)
        requires
            old(self).wf(),
        ensures
            final(self).wf(),
            drained@ == old(self).dirty(),
            final(self).dirty() == Seq::<ElementKey>::empty(),
            final(self).building_set() == old(self).building_set(),
            final(self).focused() == old(self).focused(),
            final(self).unfocus_pending() == old(self).unfocus_pending(),
            final(self).safe_area() == old(self).safe_area(),
            final(self).keyboard_inset() == old(self).keyboard_inset(),
    {
        self.take_dirty()
    }

    fn take_dirty(&mut self) -> (drained: Vec<ElementKey>)
        requires
            old(self).wf(),
        ensures
            final(self).wf(),
            drained@ == old(self).dirty(),
            final(self).dirty() == Seq::<ElementKey>::empty(),
            final(self).building_set() == old(self).building_set(),
            final(self).focused() == old(self).focused(),
            final(self).unfocus_pending() == old(self).unfocus_pending(),
            final(self).safe_area() == old(self).safe_area(),
            final(self).keyboard_inset() == old(self).keyboard_inset(),
    {
        self.dirty_set.clear();
        let mut drained: Vec<ElementKey> = Vec::new();
        std::mem::swap(&mut drained, &mut self.dirty_elements);
        assert(raw_keys(self.dirty_elements@).to_set() =~= Set::<u64>::empty());
        drained
    }

    /// Clear all dirty elements without rebuilding.
    pub fn clear_dirty(&mut self)
        requires
            old(self).wf(),
        ensures
            final(self).wf(),
            final(self).dirty() == Seq::<ElementKey>::empty(),
            final(self).building_set() == old(self).building_set(),
            final(self).focused() == old(self).focused(),
            final(self).unfocus_pending() == old(self).unfocus_pending(),
            final(self).safe_area() == old(self).safe_area(),
            final(self).keyboard_inset() == old(self).keyboard_inset(),
    {
        self.dirty_elements.clear();
        self.dirty_set.clear();
        assert(raw_keys(self.dirty_elements@).to_set() =~= Set::<u64>::empty());
    }

    /// Enter a build scope for an element.
    ///
    /// Returns false if the element is already being built (a cycle).
    pub fn enter_build_scope(&mut self, element_id: ElementKey) -> (entered: bool)
        requires
            old(self).wf(),
        ensures
            final(self).wf(),
            entered == !old(self).building_set().contains(element_id.raw()),
            final(self).building_set() == old(self).building_set().insert(element_id.raw()),
            final(self).dirty() == old(self).dirty(),
            final(self).focused() == old(self).focused(),
            final(self).unfocus_pending() == old(self).unfocus_pending(),
            final(self).safe_area() == old(self).safe_area(),
            final(self).keyboard_inset() == old(self).keyboard_inset(),
    {
        if self.building.contains(&element_id.as_raw()) {
            return false;
        }
        self.building.insert(element_id.as_raw());
        true
    }

    /// Exit a build scope for an element.
    pub fn exit_build_scope(&mut self, element_id: ElementKey)
        requires
            old(self).wf(),
        ensures
            final(self).wf(),
            final(self).building_set() == old(self).building_set().remove(element_id.raw()),
            final(self).dirty() == old(self).dirty(),
            final(self).focused() == old(self).focused(),
            final(self).unfocus_pending() == old(self).unfocus_pending(),
            final(self).safe_area() == old(self).safe_area(),
            final(self).keyboard_inset() == old(self).keyboard_inset(),
    {
        self.building.remove(&element_id.as_raw());
    }

    /// Check if currently building an element.
    pub fn is_building(&self, element_id: ElementKey) -> (res: bool)
        ensures
            res == self.building_set().contains(element_id.raw()),
    {
        self.building.contains(&element_id.as_raw())
    }

    /// Get the currently focused element.
    pub fn focused_element(&self) -> (res: Option<ElementKey>)
        ensures
            res == self.focused(),
    {
        self.focused_element
    }

    /// Set the currently focused element.
    pub fn set_focused_element(&mut self, element: Option<ElementKey>)
        ensures
            final(self).focused() == element,
            final(self).wf() == old(self).wf(),
            final(self).dirty() == old(self).dirty(),
            final(self).building_set() == old(self).building_set(),
            final(self).unfocus_pending() == old(self).unfocus_pending(),
            final(self).safe_area() == old(self).safe_area(),
            final(self).keyboard_inset() == old(self).keyboard_inset(),
    {
        self.focused_element = element;
    }

    /// Request that the pipeline clear primary focus after the current
    /// rebuild pass. Idempotent: several requests collapse to one.
    pub fn request_unfocus(&mut self)
        ensures
            final(self).unfocus_pending(),
            final(self).wf() == old(self).wf(),
            final(self).dirty() == old(self).dirty(),
            final(self).building_set() == old(self).building_set(),
            final(self).focused() == old(self).focused(),
            final(self).safe_area() == old(self).safe_area(),
            final(self).keyboard_inset() == old(self).keyboard_inset(),
    {
        self.pending_unfocus = true;
    }

    /// Take and clear the deferred unfocus request: true if at least one
    /// `request_unfocus()` was made since the last call.
    pub fn take_unfocus_requested(&mut self) -> (requested: bool)
        ensures
            requested == old(self).unfocus_pending(),
            !final(self).unfocus_pending(),
            final(self).wf() == old(self).wf(),
            final(self).dirty() == old(self).dirty(),
            final(self).building_set() == old(self).building_set(),
            final(self).focused() == old(self).focused(),
            final(self).safe_area() == old(self).safe_area(),
            final(self).keyboard_inset() == old(self).keyboard_inset(),
    {
        let v = self.pending_unfocus;
        self.pending_unfocus = false;
        v
    }

    /// Whether `request_unfocus()` has been called since the last
    /// `take_unfocus_requested()`.
    pub fn has_unfocus_request(&self) -> (res: bool)
        ensures
            res == self.unfocus_pending(),
    {
        self.pending_unfocus
    }

    /// A handle on the shared safe-area cell (clones share the same cell).
    pub fn safe_area_source(&self) -> (res: SafeAreaSource)
        ensures
            res == self.safe_area(),
    {
        self.safe_area_source.clone()
    }

    /// Replace the safe-area source.
    pub fn set_safe_area_source(&mut self, source: SafeAreaSource)
        ensures
            final(self).wf() == old(self).wf(),
            final(self).dirty() == old(self).dirty(),
            final(self).building_set() == old(self).building_set(),
            final(self).focused() == old(self).focused(),
            final(self).unfocus_pending() == old(self).unfocus_pending(),
            final(self).safe_area() == source,
            final(self).keyboard_inset() == old(self).keyboard_inset(),
    {
        self.safe_area_source = source;
    }

    /// A handle on the shared keyboard-inset cell (clones share the same cell).
    pub fn keyboard_inset_source(&self) -> (res: KeyboardInsetSource)
        ensures
            res == self.keyboard_inset(),
    {
        self.keyboard_inset_source.clone()
    }

    /// Replace the keyboard-inset source.
    pub fn set_keyboard_inset_source(&mut self, source: KeyboardInsetSource)
        ensures
            final(self).wf() == old(self).wf(),
            final(self).dirty() == old(self).dirty(),
            final(self).building_set() == old(self).building_set(),
            final(self).focused() == old(self).focused(),
            final(self).unfocus_pending() == old(self).unfocus_pending(),
            final(self).safe_area() == old(self).safe_area(),
            final(self).keyboard_inset() == source,
    {
        self.keyboard_inset_source = source;
    }
}

impl Default for BuildOwner {
    fn default() -> (res: Self)
        ensures
            res.wf(),
            res.dirty() == Seq::<ElementKey>::empty(),
            res.building_set() == Set::<u64>::empty(),
            res.focused() is None,
            !res.unfocus_pending(),
    {
        Self::new()
    }
}

/// Result of a rebuild operation.
#[derive(Debug, Default)]
pub struct RebuildResult {
    /// Number of elements rebuilt.
    pub elements_rebuilt: usize,
    /// Whether any cycles were detected.
    pub cycles_detected: bool,
}

/// Marking an element twice leaves the same dirty list as marking it once.
pub proof fn lemma_mark_idempotent(dirty: Seq<ElementKey>, key: ElementKey)
    ensures
        marked(marked(dirty, key), key) == marked(dirty, key),
{
    if !dirty.contains(key) {
        assert(dirty.push(key)[dirty.len() as int] == key);
    }
}

/// The dirty list counts marks: when the owner starts with nothing dirty
/// (as after `new`, `drain_dirty`, `drain_dirty_sorted` or `clear_dirty`) and
/// `mark_needs_build` is then called with `keys[0]`, `keys[1]`, ... in turn,
/// taking it through `states`, the dirty elements are exactly the distinct
/// keys marked, each once, so `dirty_count` is the number of distinct keys.
pub proof fn lemma_dirty_count_counts_marks(states: Seq<BuildOwner>, keys: Seq<ElementKey>)
    requires
        states.len() == keys.len() + 1,
        states[0].dirty() == Seq::<ElementKey>::empty(),
        forall|i: int|
            0 <= i < keys.len() ==> #[trigger] states[i + 1].dirty() == marked(states[i].dirty(), keys[i]),
    ensures
        states.last().dirty().no_duplicates(),
        states.last().dirty().to_set() == keys.to_set(),
        states.last().dirty().len() == keys.to_set().len(),
    decreases keys.len(),
{
    if keys.len() == 0 {
        assert(keys.to_set() =~= Set::<ElementKey>::empty());
        assert(states.last().dirty().to_set() =~= Set::<ElementKey>::empty());
    } else {
        let n = keys.len() as int;
        let prev_states = states.take(n);
        let prev_keys = keys.take(n - 1);
        assert forall|i: int| 0 <= i < prev_keys.len() implies #[trigger] prev_states[i + 1].dirty() == marked(
            prev_states[i].dirty(),
            prev_keys[i],
        ) by {
            assert(states[i + 1].dirty() == marked(states[i].dirty(), keys[i]));
        }
        lemma_dirty_count_counts_marks(prev_states, prev_keys);
        let before = states[n - 1].dirty();
        let key = keys[n - 1];
        assert(prev_states.last() == states[n - 1]);
        assert(states[n].dirty() == marked(before, key));
        assert(keys =~= prev_keys.push(key));
        prev_keys.lemma_push_to_set_commute(key);
        if !before.contains(key) {
            before.lemma_push_to_set_commute(key);
            assert forall|a: int, b: int| 0 <= a < b < before.len() + 1 implies before.push(key)[a] != before.push(key)[b] by {
                if b == before.len() {
                    assert(before.contains(before[a]));
                }
            }
        } else {
            assert(before.to_set().contains(key));
            assert(before.to_set().insert(key) =~= before.to_set());
        }
        states.last().dirty().unique_seq_to_set();
    }
}

/// Marking, sorting, then draining: after `mark_needs_build` is called with
/// `keys[0]`, `keys[1]`, ... from an empty dirty list (taking the owner
/// through `states`), `sort_dirty_by_depth` (with the depths `depths` it was
/// given) and `drain_dirty_sorted`, the drained keys are the distinct marked
/// keys, each once, shallowest first, and among equal depths in the order in
/// which they were first marked.
pub proof fn lemma_marked_sorted_drain(
    states: Seq<BuildOwner>,
    keys: Seq<ElementKey>,
    drained: Seq<ElementKey>,
    depths: Seq<usize>,
)
    requires
        states.len() == keys.len() + 1,
        states[0].dirty() == Seq::<ElementKey>::empty(),
        forall|i: int|
            0 <= i < keys.len() ==> #[trigger] states[i + 1].dirty() == marked(states[i].dirty(), keys[i]),
        stably_sorted_by(states.last().dirty(), drained, depths),
    ensures
        drained.no_duplicates(),
        drained.to_set() == keys.to_set(),
        drained.len() == keys.to_set().len(),
        forall|i: int, j: int| 0 <= i < j < drained.len() ==> depths[i] <= depths[j],
        forall|i: int, j: int, a: int, b: int|
            0 <= i < j < drained.len() && depths[i] == depths[j] && 0 <= a < states.last().dirty().len()
                && 0 <= b < states.last().dirty().len() && states.last().dirty()[a] == drained[i]
                && states.last().dirty()[b] == drained[j] ==> a < b,
{
    lemma_dirty_count_counts_marks(states, keys);
}

/// After sorting by registry depth, a dirty element comes before each dirty
/// child of it: parents rebuild before their children.
pub proof fn lemma_parent_sorted_before_child(
    unsorted: Seq<ElementKey>,
    sorted: Seq<ElementKey>,
    depths: Seq<usize>,
    m: Map<u64, ElementEntry>,
    i: int,
    j: int,
)
    requires
        stably_sorted_by(unsorted, sorted, depths),
        0 <= i < sorted.len(),
        0 <= j < sorted.len(),
        chain_length_is(m, sorted[i].raw(), depths[i] as nat),
        chain_length_is(m, sorted[j].raw(), depths[j] as nat),
        m.dom().contains(sorted[j].raw()),
        m[sorted[j].raw()].parent == Some(sorted[i]),
    ensures
        i < j,
{
    lemma_child_depth(m, sorted[j].raw(), sorted[i], depths[i] as nat);
    lemma_chain_length_unique(m, sorted[j].raw(), depths[j] as nat, (depths[i] + 1) as nat);
}

} // verus!
