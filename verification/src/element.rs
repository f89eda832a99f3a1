//! Element trait and registry.
//!
//! Elements are the middle tree in the three-tree architecture: they bridge
//! widgets (configuration) and render objects (layout/paint). The registry
//! stores every live element with its parent and children under a
//! generational key.

use slotmap::{DefaultKey, Key, KeyData, SlotMap};
use vstd::prelude::*;

use crate::id::{raw_key_is_well_formed, ElementKey, RenderObjectKey};

pub mod tree;

use crate::element::tree::{
    children_acyclic, cleaned, lemma_filter_all, lemma_filter_ext, lemma_reach_after_removal,
    lemma_reach_bound, lemma_reach_list_bound, lemma_reach_list_closed, lemma_removal_compose,
    lemma_removal_keeps_rank, lemma_removed_nothing, ranked, reach, reach_list, removed_child_of,
    removed_from, subtree,
};

verus! {

/// Persistent element with state and lifecycle.
pub trait Element: 'static {
    /// Get associated render object (if any).
    fn render_object(&self) -> Option<RenderObjectKey>;
}

/// An element, boxed behind the [`Element`] trait. The registry carries it
/// around unopened; only the element's own code looks inside.
#[verifier::external_body]
pub struct ElementBox {
    inner: Box<dyn Element>,
}

impl ElementBox {
    /// Wrap a boxed element.
    #[verifier::external_body]
    pub fn new(element: Box<dyn Element>) -> (res: ElementBox) {
        ElementBox { inner: element }
    }

    /// The element.
    #[verifier::external_body]
    pub fn as_element(&self) -> (res: &dyn Element) {
        self.inner.as_ref()
    }

    /// The element, mutably.
    #[verifier::external_body]
    pub fn as_element_mut(&mut self) -> (res: &mut Box<dyn Element>) {
        &mut self.inner
    }
}

/// Per-element metadata stored alongside the element itself.
///
/// Co-locating `element`, `parent` and `children` in one entry keeps
/// identity and topology in sync: removing the slot removes all three.
pub struct ElementEntry {
    pub element: ElementBox,
    pub parent: Option<ElementKey>,
    pub children: Vec<ElementKey>,
}

/// The slot map that stores the registry's entries. The functions below are
/// its only way in, and [`slot_entries`] is what it holds.
#[verifier::external_body]
pub struct EntrySlots {
    map: SlotMap<DefaultKey, ElementEntry>,
}

/// What a slot map of entries holds: its live keys (in their 64-bit form)
/// and the entry under each.
pub uninterp spec fn slot_entries(m: EntrySlots) -> Map<u64, ElementEntry>;

/// The keys (in their 64-bit form) that have been removed from a slot map of
/// entries since it was made.
pub uninterp spec fn slot_retired(m: EntrySlots) -> Set<u64>;

/// How many removals a slot map of entries has made since it was made.
pub uninterp spec fn slot_removals(m: EntrySlots) -> nat;

/// The number of removals below which a slot map never hands out a removed
/// key again: each removal advances the version of one slot by one step of
/// two, and a slot's version takes 2^31 removals to wrap around.
pub const FRESH_KEY_REMOVALS: u64 = 0x8000_0000;

/// `SlotMap::with_key`: an empty slot map.
#[verifier::external_body]
fn slots_new() -> (res: EntrySlots)
    ensures
        slot_entries(res).dom().len() == 0 && slot_entries(res).dom().finite(),
        slot_retired(res) == Set::<u64>::empty(),
        slot_removals(res) == 0,
{
    EntrySlots { map: SlotMap::with_key() }
}

/// `SlotMap::insert`: stores `entry` under a key that no live entry has, and
/// returns that key in its 64-bit form (`KeyData::as_ffi`), whose version is
/// odd. While fewer than [`FRESH_KEY_REMOVALS`] removals have been made, no
/// slot's version has wrapped, so the key is none that was removed before.
/// `insert` panics when the map is full; `requires` keeps it from that.
#[verifier::external_body]
fn slots_insert(m: &mut EntrySlots, entry: ElementEntry) -> (raw: u64)
    requires
        slot_entries(*old(m)).dom().len() < 0xffff_fffe,
    ensures
        raw_key_is_well_formed(raw),
        !slot_entries(*old(m)).dom().contains(raw),
        slot_entries(*final(m)) == slot_entries(*old(m)).insert(raw, entry),
        slot_retired(*final(m)) == slot_retired(*old(m)),
        slot_removals(*final(m)) == slot_removals(*old(m)),
        slot_removals(*old(m)) < FRESH_KEY_REMOVALS ==> !slot_retired(*old(m)).contains(raw),
{
    m.map.insert(entry).data().as_ffi()
}

/// `SlotMap::get` under the key whose 64-bit form is `raw`.
#[verifier::external_body]
fn slots_get(m: &EntrySlots, raw: u64) -> (res: Option<&ElementEntry>)
    requires
        raw_key_is_well_formed(raw),
    ensures
        res is Some == slot_entries(*m).dom().contains(raw),
        res matches Some(e) ==> *e == slot_entries(*m)[raw],
{
    m.map.get(DefaultKey::from(KeyData::from_ffi(raw)))
}

/// `SlotMap::get_mut`: a mutable borrow of the entry under `raw`; what is
/// written through it is what the map then holds there.
#[verifier::external_body]
fn slots_get_mut(m: &mut EntrySlots, raw: u64) -> (res: Option<&mut ElementEntry>)
    requires
        raw_key_is_well_formed(raw),
    ensures
        res is Some == slot_entries(*old(m)).dom().contains(raw),
        res matches Some(e) ==> *e == slot_entries(*old(m))[raw] && slot_entries(*final(m))
            == slot_entries(*old(m)).insert(raw, *final(e)),
        res is None ==> slot_entries(*final(m)) == slot_entries(*old(m)),
        slot_retired(*final(m)) == slot_retired(*old(m)),
        slot_removals(*final(m)) == slot_removals(*old(m)),
{
    m.map.get_mut(DefaultKey::from(KeyData::from_ffi(raw)))
}

/// `SlotMap::remove`: takes the entry under `raw` out, if there is one; its
/// key is then a removed one.
#[verifier::external_body]
fn slots_remove(m: &mut EntrySlots, raw: u64) -> (res: Option<ElementEntry>)
    requires
        raw_key_is_well_formed(raw),
    ensures
        res is Some == slot_entries(*old(m)).dom().contains(raw),
        res matches Some(e) ==> e == slot_entries(*old(m))[raw],
        slot_entries(*final(m)) == slot_entries(*old(m)).remove(raw),
        res is Some ==> slot_retired(*final(m)) == slot_retired(*old(m)).insert(raw) && slot_removals(
            *final(m),
        ) == slot_removals(*old(m)) + 1,
        res is None ==> slot_retired(*final(m)) == slot_retired(*old(m)) && slot_removals(*final(m))
            == slot_removals(*old(m)),
{
    m.map.remove(DefaultKey::from(KeyData::from_ffi(raw)))
}

/// `SlotMap::contains_key` under `raw`.
#[verifier::external_body]
fn slots_contains(m: &EntrySlots, raw: u64) -> (res: bool)
    requires
        raw_key_is_well_formed(raw),
    ensures
        res == slot_entries(*m).dom().contains(raw),
{
    m.map.contains_key(DefaultKey::from(KeyData::from_ffi(raw)))
}

/// `SlotMap::len`: the number of live entries.
#[verifier::external_body]
fn slots_len(m: &EntrySlots) -> (n: usize)
    ensures
        n == slot_entries(*m).dom().len(),
{
    m.map.len()
}

/// `SlotMap::is_empty`.
#[verifier::external_body]
fn slots_is_empty(m: &EntrySlots) -> (res: bool)
    ensures
        res == (slot_entries(*m).dom().len() == 0),
{
    m.map.is_empty()
}

/// Where `child` lands in a children list for a slot request: at the end
/// without a slot; in place at a slot inside the list; at a slot past the
/// end, the list grows to reach it and every new position holds `child`.
pub open spec fn placed(children: Seq<ElementKey>, child: ElementKey, slot: Option<usize>) -> Seq<ElementKey> {
    match slot {
        None => children.push(child),
        Some(idx) => if idx < children.len() {
            children.update(idx as int, child)
        } else {
            children + Seq::new((idx + 1 - children.len()) as nat, |_i: int| child)
        },
    }
}

/// `after` is `before` with the entry under `k` given the children `cs`
/// (and nothing else changed).
pub open spec fn children_replaced(
    before: Map<u64, ElementEntry>,
    after: Map<u64, ElementEntry>,
    k: u64,
    cs: Seq<ElementKey>,
) -> bool {
    &&& before.dom().contains(k)
    &&& after == before.insert(k, after[k])
    &&& after[k].children@ == cs
    &&& after[k].parent == before[k].parent
    &&& after[k].element == before[k].element
}

/// The key `i` steps up the parent chain from `k` (`k` itself for `0`), as
/// long as each step leaves from a live entry that has a parent.
pub open spec fn ancestor(m: Map<u64, ElementEntry>, k: u64, i: nat) -> Option<u64>
    decreases i,
{
    if i == 0 {
        Some(k)
    } else {
        match ancestor(m, k, (i - 1) as nat) {
            Some(a) => if m.dom().contains(a) && m[a].parent is Some {
                Some(m[a].parent.unwrap().raw())
            } else {
                None
            },
            None => None,
        }
    }
}

/// The parent chain from `k` has exactly `d` steps: the `d`-th ancestor
/// exists and has no further parent (or is not a live entry).
pub open spec fn chain_length_is(m: Map<u64, ElementEntry>, k: u64, d: nat) -> bool {
    &&& ancestor(m, k, d) is Some
    &&& ancestor(m, k, d + 1) is None
}

/// Central registry for all live elements, under generational keys:
/// removing an element invalidates every copy of its key, and no later
/// element gets that key while fewer than [`FRESH_KEY_REMOVALS`] elements
/// have been removed.
pub struct ElementRegistry {
    slots: EntrySlots,
    root: Option<ElementKey>,
}

impl ElementRegistry {
    /// The live entries by key.
    pub closed spec fn entries(&self) -> Map<u64, ElementEntry> {
        slot_entries(self.slots)
    }

    /// The root element's key, as last recorded.
    pub closed spec fn root_key(&self) -> Option<ElementKey> {
        self.root
    }

    /// The keys (64-bit form) of the elements removed so far.
    pub closed spec fn retired(&self) -> Set<u64> {
        slot_retired(self.slots)
    }

    /// How many elements have been removed so far.
    pub closed spec fn removals(&self) -> nat {
        slot_removals(self.slots)
    }

    /// No removed key finds a live element.
    pub open spec fn stale_keys_dead(&self) -> bool {
        forall|k: u64| #[trigger] self.retired().contains(k) ==> !self.entries().dom().contains(k)
    }

    /// The entries form a finite map.
    pub open spec fn wf(&self) -> bool {
        self.entries().dom().finite()
    }

    /// The parent chain from `key` ends after `d` steps, and `d` fits in a
    /// `usize`.
    pub open spec fn depth_is(&self, key: ElementKey, d: nat) -> bool {
        d < usize::MAX && chain_length_is(self.entries(), key.raw(), d)
    }

    /// Create a new empty registry.
    pub fn new() -> (res: Self)
        ensures
            res.wf(),
            res.entries() == Map::<u64, ElementEntry>::empty(),
            res.root_key() is None,
            res.retired() == Set::<u64>::empty(),
            res.removals() == 0,
            res.stale_keys_dead(),
    {
        let res = ElementRegistry { slots: slots_new(), root: None };
        res
    }

    /// Insert an element with the given parent and no children, under a
    /// fresh key. An element without a parent becomes the root. The
    /// element is neither mounted nor added to its parent's children here.
    pub fn insert(&mut self, element: ElementBox, parent: Option<ElementKey>) -> (key: ElementKey)
        requires
            old(self).wf(),
            old(self).entries().dom().len() < 0xffff_fffe,
        ensures
            final(self).wf(),
            !old(self).entries().dom().contains(key.raw()),
            final(self).entries() == old(self).entries().insert(key.raw(), final(self).entries()[key.raw()]),
            final(self).entries().dom().len() == old(self).entries().dom().len() + 1,
            final(self).entries()[key.raw()].element == element,
            final(self).entries()[key.raw()].parent == parent,
            final(self).entries()[key.raw()].children@ == Seq::<ElementKey>::empty(),
            final(self).root_key() == if parent is None { Some(key) } else { old(self).root_key() },
            final(self).retired() == old(self).retired(),
            final(self).removals() == old(self).removals(),
            old(self).removals() < FRESH_KEY_REMOVALS ==> !old(self).retired().contains(key.raw()),
            old(self).stale_keys_dead() && old(self).removals() < FRESH_KEY_REMOVALS
                ==> final(self).stale_keys_dead(),
    {
        let entry = ElementEntry { element, parent, children: Vec::new() };
        let raw = slots_insert(&mut self.slots, entry);
        let key = ElementKey::from_well_formed_raw(raw);
        if parent.is_none() {
            self.root = Some(key);
        }
        key
    }

    /// Add a child to a parent's children list at the given slot position
    /// (see [`placed`]). Nothing happens when the parent is not live.
    pub fn add_child(&mut self, parent: ElementKey, child: ElementKey, slot: Option<usize>)
        requires
            old(self).wf(),
            slot matches Some(idx) ==> idx < usize::MAX,
        ensures
            final(self).wf(),
            final(self).root_key() == old(self).root_key(),
            old(self).entries().dom().contains(parent.raw()) ==> children_replaced(
                old(self).entries(),
                final(self).entries(),
                parent.raw(),
                placed(old(self).entries()[parent.raw()].children@, child, slot),
            ),
            !old(self).entries().dom().contains(parent.raw()) ==> final(self).entries() == old(
                self,
            ).entries(),
            final(self).retired() == old(self).retired(),
            final(self).removals() == old(self).removals(),
    {
        let entry = match slots_get_mut(&mut self.slots, parent.as_raw()) {
            Some(e) => e,
            None => return,
        };
        place_child(&mut entry.children, child, slot);
    }

    /// Replace the child at the given slot with a new child key (growing the
    /// list to reach the slot, as [`placed`] says), then record `parent` as
    /// the new child's parent.
    ///
    /// The reconciler calls this before unmounting the old element, so the
    /// slot is swapped in place and later slots do not shift.
    pub fn replace_child_at(&mut self, parent: ElementKey, slot: usize, new_child: ElementKey)
        requires
            old(self).wf(),
            slot < usize::MAX,
        ensures
            final(self).wf(),
            final(self).root_key() == old(self).root_key(),
            final(self).entries().dom() == old(self).entries().dom(),
            forall|k: u64|
                #![trigger final(self).entries()[k]]
                old(self).entries().dom().contains(k) && k != parent.raw() && k != new_child.raw()
                    ==> final(self).entries()[k] == old(self).entries()[k],
            old(self).entries().dom().contains(parent.raw()) ==> {
                let before = old(self).entries()[parent.raw()];
                let after = final(self).entries()[parent.raw()];
                &&& after.children@ == placed(before.children@, new_child, Some(slot))
                &&& after.element == before.element
                &&& after.parent == if new_child == parent { Some(parent) } else { before.parent }
            },
            old(self).entries().dom().contains(new_child.raw()) && new_child != parent ==> {
                let before = old(self).entries()[new_child.raw()];
                let after = final(self).entries()[new_child.raw()];
                &&& after.parent == Some(parent)
                &&& after.children == before.children
                &&& after.element == before.element
            },
            final(self).retired() == old(self).retired(),
            final(self).removals() == old(self).removals(),
    {
        proof { parent.lemma_raw_injective(new_child); }
        match slots_get_mut(&mut self.slots, parent.as_raw()) {
            Some(entry) => {
                place_child(&mut entry.children, new_child, Some(slot));
            },
            None => {},
        }
        match slots_get_mut(&mut self.slots, new_child.as_raw()) {
            Some(entry) => {
                entry.parent = Some(parent);
            },
            None => {},
        }
    }

    /// The entry of a live element.
    fn entry(&self, key: ElementKey) -> (res: Option<&ElementEntry>)
        ensures
            res is Some == self.entries().dom().contains(key.raw()),
            res matches Some(e) ==> *e == self.entries()[key.raw()],
    {
        slots_get(&self.slots, key.as_raw())
    }

    /// Unmount an element and all its descendants: the element and every
    /// live element below it (through children links) leave the registry,
    /// and each removed element is dropped from its parent's children list.
    ///
    /// Removal bumps the slot's generation, so stale copies of a removed key
    /// no longer find anything. The children links must not cycle (the
    /// recursion would not end).
    pub fn unmount(&mut self, key: ElementKey)
        requires
            old(self).wf(),
            children_acyclic(old(self).entries()),
        ensures
            final(self).wf(),
            final(self).root_key() == old(self).root_key(),
            removed_from(old(self).entries(), final(self).entries(), subtree(old(self).entries(), key.raw())),
            final(self).entries().dom().len() == old(self).entries().dom().len() - subtree(
                old(self).entries(),
                key.raw(),
            ).len(),
            final(self).retired() == old(self).retired().union(subtree(old(self).entries(), key.raw())),
            final(self).removals() == old(self).removals() + subtree(old(self).entries(), key.raw()).len(),
            old(self).stale_keys_dead() ==> final(self).stale_keys_dead(),
    {
        let ghost m0 = self.entries();
        let ghost rank = choose|rank: Map<u64, nat>| ranked(self.entries(), rank);
        if self.contains(key) {
            self.unmount_rec(key, Ghost(rank));
        } else {
            proof {
                lemma_removed_nothing(self.entries());
            }
        }
        proof {
            let gone = subtree(m0, key.raw());
            assert forall|y: u64| gone.contains(y) implies m0.dom().contains(y) by {
                lemma_reach_bound(m0, rank, key.raw(), y);
            }
            vstd::set_lib::lemma_len_subset(gone, m0.dom());
            vstd::set_lib::lemma_set_difference_len(m0.dom(), gone);
            assert(m0.dom().intersect(gone) =~= gone);
            assert(m0.dom().difference(self.entries().dom()) =~= gone);
        }
    }

    fn unmount_rec(&mut self, key: ElementKey, Ghost(rank): Ghost<Map<u64, nat>>)
        requires
            old(self).wf(),
            ranked(old(self).entries(), rank),
            old(self).entries().dom().contains(key.raw()),
        ensures
            final(self).wf(),
            final(self).root_key() == old(self).root_key(),
            removed_from(old(self).entries(), final(self).entries(), reach(old(self).entries(), rank, key.raw())),
            final(self).retired() == old(self).retired().union(
                old(self).entries().dom().difference(final(self).entries().dom()),
            ),
            final(self).removals() + final(self).entries().dom().len() == old(self).removals() + old(
                self,
            ).entries().dom().len(),
        decreases rank[key.raw()],
    {
        let ghost m0 = self.entries();
        let ghost r0 = self.retired();
        let ghost n0 = self.removals();
        let ghost kr = key.raw();
        // Recursively unmount children first, from a copy of the list.
        let children = match self.entry(key) {
            Some(e) => copy_keys(&e.children),
            None => Vec::new(),
        };
        let ghost cs = children@;
        proof { lemma_removed_nothing(m0); }
        let n = children.len();
        for j in 0..n
            invariant
                n == cs.len(),
                kr == key.raw(),
                children@ == cs,
                cs == m0[kr].children@,
                m0.dom().contains(kr),
                ranked(m0, rank),
                self.wf(),
                self.root_key() == old(self).root_key(),
                removed_from(m0, self.entries(), reach_list(m0, rank, cs.take(j as int), rank[kr])),
                self.retired() == r0.union(m0.dom().difference(self.entries().dom())),
                self.removals() + self.entries().dom().len() == n0 + m0.dom().len(),
        {
            let child = children[j];
            let ghost cr = child.raw();
            let ghost before = self.entries();
            let ghost gone = reach_list(m0, rank, cs.take(j as int), rank[kr]);
            proof {
                lemma_reach_list_closed(m0, rank, cs.take(j as int), rank[kr]);
                lemma_removal_keeps_rank(m0, before, rank, gone);
                assert(cs.take(j + 1).drop_last() =~= cs.take(j as int));
            }
            if self.contains(child) {
                self.unmount_rec(child, Ghost(rank));
                proof {
                    let removed = reach(before, rank, cr);
                    lemma_reach_after_removal(m0, before, rank, gone, cr);
                    assert forall|y: u64| removed.contains(y) implies before.dom().contains(y) by {
                        lemma_reach_bound(before, rank, cr, y);
                    }
                    lemma_removal_compose(m0, before, self.entries(), gone, removed);
                    assert(gone.union(removed) =~= reach_list(m0, rank, cs.take(j + 1), rank[kr]));
                    assert(self.retired() =~= r0.union(m0.dom().difference(self.entries().dom())));
                }
            } else {
                proof {
                    let next = reach_list(m0, rank, cs.take(j + 1), rank[kr]);
                    if !m0.dom().contains(cr) {
                        assert(reach(m0, rank, cr) =~= Set::<u64>::empty());
                    }
                    assert(gone =~= next);
                }
            }
        }
        let ghost gone = reach_list(m0, rank, cs, rank[kr]);
        let ghost mid = self.entries();
        proof {
            assert(cs.take(n as int) =~= cs);
            if gone.contains(kr) {
                lemma_reach_list_bound(m0, rank, cs, rank[kr], kr);
            }
        }
        // Remove this element from its parent's children list.
        let parent = match self.entry(key) {
            Some(e) => e.parent,
            None => None,
        };
        match parent {
            Some(p) => {
                match slots_get_mut(&mut self.slots, p.as_raw()) {
                    Some(pe) => {
                        remove_key(&mut pe.children, key);
                    },
                    None => {},
                }
            },
            None => {},
        }
        let ghost after_retain = self.entries();
        let ghost r_mid = self.retired();
        let ghost n_mid = self.removals();
        proof {
            assert(after_retain.dom() =~= mid.dom());
            assert(mid.dom().contains(kr));
        }
        // Remove the slot itself; the generation bump invalidates stale keys.
        let _removed = slots_remove(&mut self.slots, key.as_raw());
        proof {
            assert(self.retired() == r_mid.insert(kr));
            assert(self.entries().dom() =~= mid.dom().remove(kr));
            assert(self.retired() =~= r0.union(m0.dom().difference(self.entries().dom())));
        }
        proof {
            let single = set![kr];
            let fin = self.entries();
            assert(fin.dom() =~= mid.dom().difference(single));
            assert forall|k: u64| #[trigger] fin.dom().contains(k) implies fin[k].children@ == cleaned(mid, single, k) by {
                let pred = |c: ElementKey| !removed_child_of(mid, single, c, k);
                let cs_k = mid[k].children@;
                if parent matches Some(p) && p.raw() == k {
                    assert forall|i: int| 0 <= i < cs_k.len() implies (cs_k[i] != key) == pred(cs_k[i]) by {
                        cs_k[i].lemma_raw_injective(key);
                    }
                    lemma_filter_ext(cs_k, |s: ElementKey| s != key, pred);
                } else {
                    lemma_filter_all(cs_k, pred);
                }
            }
            lemma_removal_compose(m0, mid, fin, gone, single);
            assert(gone.union(single) =~= reach(m0, rank, kr));
        }
    }

    /// Get an element by key.
    pub fn get(&self, key: ElementKey) -> (res: Option<&ElementBox>)
        ensures
            res is Some == self.entries().dom().contains(key.raw()),
            res matches Some(e) ==> *e == self.entries()[key.raw()].element,
    {
        match self.entry(key) {
            Some(e) => Some(&e.element),
            None => None,
        }
    }

    /// Get a mutable element by key.
    pub fn get_mut(&mut self, key: ElementKey) -> (res: Option<&mut ElementBox>)
        requires
            old(self).wf(),
        ensures
            final(self).wf(),
            final(self).root_key() == old(self).root_key(),
            res is Some == old(self).entries().dom().contains(key.raw()),
            res matches Some(e) ==> {
                let before = old(self).entries()[key.raw()];
                let after = final(self).entries()[key.raw()];
                &&& *e == before.element
                &&& final(self).entries() == old(self).entries().insert(key.raw(), after)
                &&& after.element == *final(e)
                &&& after.parent == before.parent
                &&& after.children == before.children
            },
            res is None ==> final(self).entries() == old(self).entries(),
            final(self).retired() == old(self).retired(),
            final(self).removals() == old(self).removals(),
    {
        match slots_get_mut(&mut self.slots, key.as_raw()) {
            Some(e) => Some(&mut e.element),
            None => None,
        }
    }

    /// Call `f` with mutable access to the element under `key` and to an
    /// outside `context`; `None` (and `f` not called) when the key is not
    /// live. Only the element itself can change in the registry.
    pub fn with_element<C, R, F: FnOnce(&mut Box<dyn Element>, &mut C) -> R>(
        &mut self,
        key: ElementKey,
        context: &mut C,
        f: F,
    ) -> (res: Option<R>)
        requires
            old(self).wf(),
            forall|e: &mut Box<dyn Element>, c: &mut C| call_requires(f, (e, c)),
        ensures
            final(self).wf(),
            final(self).root_key() == old(self).root_key(),
            res is Some == old(self).entries().dom().contains(key.raw()),
            res is None ==> final(self).entries() == old(self).entries() && *final(context) == *old(context),
            res is Some ==> {
                let before = old(self).entries()[key.raw()];
                let after = final(self).entries()[key.raw()];
                &&& final(self).entries() == old(self).entries().insert(key.raw(), after)
                &&& after.parent == before.parent
                &&& after.children == before.children
            },
            res matches Some(r) ==> exists|e: &mut Box<dyn Element>, c: &mut C|
                *c == *old(context) && *final(c) == *final(context) && call_ensures(f, (e, c), r),
            final(self).retired() == old(self).retired(),
            final(self).removals() == old(self).removals(),
    {
        match self.get_mut(key) {
            Some(element) => {
                let boxed = element.as_element_mut();
                let r = f(boxed, context);
                let res = Some(r);
                assert(res->0 == r);
                res
            },
            None => None,
        }
    }

    /// Check if an element exists in the registry.
    pub fn contains(&self, key: ElementKey) -> (res: bool)
        ensures
            res == self.entries().dom().contains(key.raw()),
    {
        slots_contains(&self.slots, key.as_raw())
    }

    /// Get the parent of an element (`None` when it is not live).
    pub fn parent(&self, key: ElementKey) -> (res: Option<ElementKey>)
        ensures
            res == if self.entries().dom().contains(key.raw()) {
                self.entries()[key.raw()].parent
            } else {
                None
            },
    {
        match self.entry(key) {
            Some(e) => e.parent,
            None => None,
        }
    }

    /// Get the children of an element (empty when it is not live).
    pub fn children(&self, key: ElementKey) -> (res: &[ElementKey])
        ensures
            res@ == if self.entries().dom().contains(key.raw()) {
                self.entries()[key.raw()].children@
            } else {
                Seq::<ElementKey>::empty()
            },
    {
        match self.entry(key) {
            Some(e) => e.children.as_slice(),
            None => {
                let none: &[ElementKey] = &[];
                none
            },
        }
    }

    /// Set the children of an element (nothing happens when it is not live).
    pub fn set_children(&mut self, key: ElementKey, children: Vec<ElementKey>)
        requires
            old(self).wf(),
        ensures
            final(self).wf(),
            final(self).root_key() == old(self).root_key(),
            old(self).entries().dom().contains(key.raw()) ==> children_replaced(
                old(self).entries(),
                final(self).entries(),
                key.raw(),
                children@,
            ),
            !old(self).entries().dom().contains(key.raw()) ==> final(self).entries() == old(
                self,
            ).entries(),
            final(self).retired() == old(self).retired(),
            final(self).removals() == old(self).removals(),
    {
        match slots_get_mut(&mut self.slots, key.as_raw()) {
            Some(entry) => {
                entry.children = children;
            },
            None => {},
        }
    }

    /// Get the root element key.
    pub fn root(&self) -> (res: Option<ElementKey>)
        ensures
            res == self.root_key(),
    {
        self.root
    }

    /// Set the root element key.
    pub fn set_root(&mut self, key: ElementKey)
        ensures
            final(self).root_key() == Some(key),
            final(self).entries() == old(self).entries(),
            final(self).wf() == old(self).wf(),
            final(self).retired() == old(self).retired(),
            final(self).removals() == old(self).removals(),
    {
        self.root = Some(key);
    }

    /// Get the number of elements.
    pub fn len(&self) -> (n: usize)
        ensures
            n == self.entries().dom().len(),
    {
        slots_len(&self.slots)
    }

    /// Check if the registry is empty.
    pub fn is_empty(&self) -> (res: bool)
        ensures
            res == (self.entries().dom().len() == 0),
    {
        slots_is_empty(&self.slots)
    }

    /// Compute the depth of an element in the tree: the number of parent
    /// links followed from it until an element without a parent (or one no
    /// longer live) is reached.
    pub fn depth(&self, key: ElementKey) -> (depth: usize)
        requires
            exists|d: nat| self.depth_is(key, d),
        ensures
            self.depth_is(key, depth as nat),
    {
        let ghost m = self.entries();
        let ghost d = choose|d: nat| self.depth_is(key, d);
        let mut depth: usize = 0;
        let mut current = key;
        loop
            invariant
                m == self.entries(),
                self.depth_is(key, d),
                depth <= d,
                ancestor(m, key.raw(), depth as nat) == Some(current.raw()),
            decreases d - depth,
        {
            match self.entry(current) {
                Some(e) => match e.parent {
                    Some(p) => {
                        depth = depth + 1;
                        current = p;
                    },
                    None => {
                        proof { lemma_chain_unique(m, key.raw(), d, depth as nat); }
                        return depth;
                    },
                },
                None => {
                    proof { lemma_chain_unique(m, key.raw(), d, depth as nat); }
                    return depth;
                },
            }
        }
    }
}

impl Default for ElementRegistry {
    fn default() -> (res: Self)
        ensures
            res.wf(),
            res.entries() == Map::<u64, ElementEntry>::empty(),
            res.root_key() is None,
            res.retired() == Set::<u64>::empty(),
            res.removals() == 0,
            res.stale_keys_dead(),
    {
        Self::new()
    }
}

/// A copy of a list of keys.
fn copy_keys(keys: &Vec<ElementKey>) -> (res: Vec<ElementKey>)
    ensures
        res@ == keys@,
{
    let mut res: Vec<ElementKey> = Vec::new();
    for i in 0..keys.len()
        invariant
            res@ == keys@.take(i as int),
    {
        res.push(keys[i]);
    }
    res
}

/// Remove every occurrence of `key` from `keys`, keeping the order of the
/// rest.
fn remove_key(keys: &mut Vec<ElementKey>, key: ElementKey)
    ensures
        final(keys)@ == old(keys)@.filter(|s: ElementKey| s != key),
{
    let ghost orig = keys@;
    let ghost keep = |s: ElementKey| s != key;
    let mut kept: Vec<ElementKey> = Vec::new();
    for i in 0..keys.len()
        invariant
            keys@ == orig,
            keep == (|s: ElementKey| s != key),
            kept@ == orig.take(i as int).filter(keep),
    {
        let k = keys[i];
        proof {
            assert(orig.take(i + 1) =~= orig.take(i as int).push(k));
            orig.take(i as int).lemma_filter_push(k, keep);
        }
        if k != key {
            kept.push(k);
        }
    }
    assert(orig.take(orig.len() as int) =~= orig);
    *keys = kept;
}

/// Put `child` into `children` as [`placed`] says.
fn place_child(children: &mut Vec<ElementKey>, child: ElementKey, slot: Option<usize>)
    requires
        slot matches Some(idx) ==> idx < usize::MAX,
    ensures
        final(children)@ == placed(old(children)@, child, slot),
{
    let ghost before = children@;
    match slot {
        Some(idx) => {
            if idx >= children.len() {
                children.resize(idx + 1, child);
            } else {
                children.set(idx, child);
            }
        },
        None => {
            children.push(child);
        },
    }
}

/// The chain from a live element with parent `p` is the chain from `p`,
/// one step longer.
proof fn lemma_ancestor_shift(m: Map<u64, ElementEntry>, k: u64, p: ElementKey, i: nat)
    requires
        m.dom().contains(k),
        m[k].parent == Some(p),
    ensures
        ancestor(m, k, i + 1) == ancestor(m, p.raw(), i),
    decreases i,
{
    if i > 0 {
        lemma_ancestor_shift(m, k, p, (i - 1) as nat);
    } else {
        assert(ancestor(m, k, 0) == Some(k));
    }
}

/// A chain has one length.
pub proof fn lemma_chain_length_unique(m: Map<u64, ElementEntry>, k: u64, a: nat, b: nat)
    requires
        chain_length_is(m, k, a),
        chain_length_is(m, k, b),
    ensures
        a == b,
{
    if a < b {
        lemma_ancestor_ends(m, k, a + 1, b);
    } else if b < a {
        lemma_ancestor_ends(m, k, b + 1, a);
    }
}

/// A live element whose parent is at depth `d` is at depth `d + 1`.
pub proof fn lemma_child_depth(m: Map<u64, ElementEntry>, k: u64, p: ElementKey, d: nat)
    requires
        m.dom().contains(k),
        m[k].parent == Some(p),
        chain_length_is(m, p.raw(), d),
    ensures
        chain_length_is(m, k, d + 1),
{
    lemma_ancestor_shift(m, k, p, d);
    lemma_ancestor_shift(m, k, p, d + 1);
}

/// Removed keys stay dead: along any run of registry calls in which fewer
/// than [`FRESH_KEY_REMOVALS`] elements have been removed (each call keeps
/// the removed keys removed, as every mutating call of the registry states,
/// and keeps stale keys dead, as every call does on that bound), a key that
/// was removed finds no element at any later point.
pub proof fn lemma_removed_key_stays_dead(states: Seq<ElementRegistry>, k: u64)
    requires
        states.len() > 0,
        states[0].stale_keys_dead(),
        states[0].retired().contains(k),
        forall|i: int|
            0 <= i < states.len() - 1 ==> {
                &&& states[i].retired().subset_of(#[trigger] states[i + 1].retired())
                &&& states[i].stale_keys_dead() ==> states[i + 1].stale_keys_dead()
            },
    ensures
        forall|i: int| 0 <= i < states.len() ==> !(#[trigger] states[i].entries()).dom().contains(k),
{
    assert forall|i: int| 0 <= i < states.len() implies !(#[trigger] states[i].entries()).dom().contains(k) by {
        lemma_retired_stays_dead(states, k, i);
    }
}

/// Induction step of [`lemma_removed_key_stays_dead`].
proof fn lemma_retired_stays_dead(states: Seq<ElementRegistry>, k: u64, i: int)
    requires
        states.len() > 0,
        states[0].stale_keys_dead(),
        states[0].retired().contains(k),
        forall|i: int|
            0 <= i < states.len() - 1 ==> {
                &&& states[i].retired().subset_of(#[trigger] states[i + 1].retired())
                &&& states[i].stale_keys_dead() ==> states[i + 1].stale_keys_dead()
            },
        0 <= i < states.len(),
    ensures
        states[i].stale_keys_dead(),
        states[i].retired().contains(k),
        !states[i].entries().dom().contains(k),
    decreases i,
{
    if i > 0 {
        lemma_retired_stays_dead(states, k, i - 1);
        assert(states[i - 1].retired().subset_of(states[(i - 1) + 1].retired()));
    }
}

/// An empty registry has no cycles.
pub proof fn lemma_empty_acyclic()
    ensures
        children_acyclic(Map::<u64, ElementEntry>::empty()),
{
    assert(ranked(Map::<u64, ElementEntry>::empty(), Map::<u64, nat>::empty()));
}

/// Inserting an entry without children under a key that was not live keeps
/// the children links acyclic (as `ElementRegistry::insert` does).
pub proof fn lemma_insert_keeps_acyclic(before: Map<u64, ElementEntry>, after: Map<u64, ElementEntry>, k: u64)
    requires
        children_acyclic(before),
        !before.dom().contains(k),
        after == before.insert(k, after[k]),
        after[k].children@.len() == 0,
    ensures
        children_acyclic(after),
{
    let rank = choose|rank: Map<u64, nat>| ranked(before, rank);
    let lifted = Map::new(
        |x: u64| after.dom().contains(x),
        |x: u64| if x == k { 0nat } else { rank[x] + 1 },
    );
    assert forall|x: u64, i: int|
        #![trigger after[x].children@[i]]
        after.dom().contains(x) && 0 <= i < after[x].children@.len() && after.dom().contains(
            after[x].children@[i].raw(),
        ) implies lifted[after[x].children@[i].raw()] < lifted[x] by {
        assert(x != k);
        assert(after[x] == before[x]);
        let c = before[x].children@[i].raw();
        if c != k {
            assert(rank[c] < rank[x]);
        }
    }
    assert(ranked(after, lifted));
}

/// Every child in a list that [`placed`] gives is `child` or was in the
/// list before.
proof fn lemma_placed_members(cs: Seq<ElementKey>, child: ElementKey, slot: Option<usize>, i: int)
    requires
        0 <= i < placed(cs, child, slot).len(),
    ensures
        placed(cs, child, slot)[i] == child || cs.contains(placed(cs, child, slot)[i]),
{
    let out = placed(cs, child, slot);
    if out[i] != child {
        match slot {
            None => {
                assert(out[i] == cs[i]);
            },
            Some(idx) => {
                assert(i < cs.len());
                assert(out[i] == cs[i]);
            },
        }
    }
}

/// Adding a leaf (an element with no live children, or one not live) to
/// another element's children list, as `ElementRegistry::add_child` does,
/// keeps the children links acyclic.
pub proof fn lemma_add_leaf_keeps_acyclic(
    before: Map<u64, ElementEntry>,
    after: Map<u64, ElementEntry>,
    parent: ElementKey,
    child: ElementKey,
    slot: Option<usize>,
)
    requires
        children_acyclic(before),
        children_replaced(before, after, parent.raw(), placed(before[parent.raw()].children@, child, slot)),
        child.raw() != parent.raw(),
        before.dom().contains(child.raw()) ==> forall|i: int|
            0 <= i < before[child.raw()].children@.len() ==> !before.dom().contains(
                #[trigger] before[child.raw()].children@[i].raw(),
            ),
    ensures
        children_acyclic(after),
{
    let rank = choose|rank: Map<u64, nat>| ranked(before, rank);
    let pr = parent.raw();
    let cr = child.raw();
    assert(after.dom() =~= before.dom());
    let lifted = Map::new(
        |x: u64| after.dom().contains(x),
        |x: u64| if x == cr { 0nat } else { rank[x] + 1 },
    );
    assert forall|x: u64, i: int|
        #![trigger after[x].children@[i]]
        after.dom().contains(x) && 0 <= i < after[x].children@.len() && after.dom().contains(
            after[x].children@[i].raw(),
        ) implies lifted[after[x].children@[i].raw()] < lifted[x] by {
        let c = after[x].children@[i];
        if x == pr {
            if c != child {
                lemma_placed_members(before[pr].children@, child, slot, i);
                let j = choose|j: int| 0 <= j < before[pr].children@.len() && before[pr].children@[j] == c;
                assert(before[pr].children@[j] == c);
                if c.raw() == cr {
                    c.lemma_raw_injective(child);
                } else {
                    assert(rank[c.raw()] < rank[pr]);
                }
            }
        } else {
            assert(after[x] == before[x]);
            if x == cr {
                assert(!before.dom().contains(before[cr].children@[i].raw()));
            } else if c.raw() != cr {
                assert(before[x].children@[i] == c);
                assert(rank[c.raw()] < rank[x]);
            }
        }
    }
    assert(ranked(after, lifted));
}

/// Along parent links that never leave from `k`, adding an entry under `k`
/// (which was not live) changes no ancestor.
proof fn lemma_ancestor_outside_insert(
    before: Map<u64, ElementEntry>,
    after: Map<u64, ElementEntry>,
    k: u64,
    x: u64,
    i: nat,
)
    requires
        !before.dom().contains(k),
        after == before.insert(k, after[k]),
        forall|j: nat| j < i ==> ancestor(before, x, j) != Some(k),
    ensures
        ancestor(after, x, i) == ancestor(before, x, i),
    decreases i,
{
    if i > 0 {
        lemma_ancestor_outside_insert(before, after, k, x, (i - 1) as nat);
    }
}

/// Depths after `ElementRegistry::insert`: the new element under `k` is at
/// depth `d + 1` when its parent was at depth `d` (with no step of the
/// parent's chain at `k`), and the parent keeps its depth.
pub proof fn lemma_insert_child_depth(
    before: Map<u64, ElementEntry>,
    after: Map<u64, ElementEntry>,
    k: u64,
    p: ElementKey,
    d: nat,
)
    requires
        !before.dom().contains(k),
        after == before.insert(k, after[k]),
        after[k].parent == Some(p),
        chain_length_is(before, p.raw(), d),
        forall|j: nat| j <= d ==> ancestor(before, p.raw(), j) != Some(k),
    ensures
        chain_length_is(after, p.raw(), d),
        chain_length_is(after, k, d + 1),
{
    lemma_ancestor_outside_insert(before, after, k, p.raw(), d);
    lemma_ancestor_outside_insert(before, after, k, p.raw(), d + 1);
    lemma_child_depth(after, k, p, d);
}

/// Changing one entry's children list (as `add_child` does) follows no
/// parent link differently: every ancestor stays the same.
proof fn lemma_ancestor_children_replaced(
    before: Map<u64, ElementEntry>,
    after: Map<u64, ElementEntry>,
    k: u64,
    cs: Seq<ElementKey>,
    x: u64,
    i: nat,
)
    requires
        children_replaced(before, after, k, cs),
    ensures
        ancestor(after, x, i) == ancestor(before, x, i),
    decreases i,
{
    if i > 0 {
        lemma_ancestor_children_replaced(before, after, k, cs, x, (i - 1) as nat);
        assert(after.dom() =~= before.dom());
    }
}

/// Changing one entry's children list keeps every depth.
pub proof fn lemma_children_replaced_keeps_depth(
    before: Map<u64, ElementEntry>,
    after: Map<u64, ElementEntry>,
    k: u64,
    cs: Seq<ElementKey>,
    x: u64,
    d: nat,
)
    requires
        children_replaced(before, after, k, cs),
        chain_length_is(before, x, d),
    ensures
        chain_length_is(after, x, d),
{
    lemma_ancestor_children_replaced(before, after, k, cs, x, d);
    lemma_ancestor_children_replaced(before, after, k, cs, x, d + 1);
}

/// A new element without a parent is at depth zero.
pub proof fn lemma_insert_root_depth(after: Map<u64, ElementEntry>, k: u64)
    requires
        after.dom().contains(k),
        after[k].parent is None,
    ensures
        chain_length_is(after, k, 0),
{
}

/// Unmounting a live element removes it: it is in its own subtree, and
/// everything in the subtree was live.
pub proof fn lemma_subtree_holds_root(m: Map<u64, ElementEntry>, k: u64)
    requires
        children_acyclic(m),
        m.dom().contains(k),
    ensures
        subtree(m, k).contains(k),
        subtree(m, k).subset_of(m.dom()),
{
    let rank = choose|rank: Map<u64, nat>| ranked(m, rank);
    assert forall|y: u64| subtree(m, k).contains(y) implies m.dom().contains(y) by {
        lemma_reach_bound(m, rank, k, y);
    }
}

/// Once the parent chain has ended it stays ended.
proof fn lemma_ancestor_ends(m: Map<u64, ElementEntry>, k: u64, j: nat, i: nat)
    requires
        ancestor(m, k, j) is None,
        j <= i,
    ensures
        ancestor(m, k, i) is None,
    decreases i - j,
{
    if j < i {
        lemma_ancestor_ends(m, k, j, (i - 1) as nat);
    }
}

/// A chain that ends after `n` steps and one that ends after `d` steps are
/// the same chain: when step `n` leads nowhere, `n == d`.
proof fn lemma_chain_unique(m: Map<u64, ElementEntry>, k: u64, d: nat, n: nat)
    requires
        chain_length_is(m, k, d),
        n <= d,
        ancestor(m, k, n) is Some,
        !(m.dom().contains(ancestor(m, k, n).unwrap()) && m[ancestor(m, k, n).unwrap()].parent is Some),
    ensures
        n == d,
        chain_length_is(m, k, n),
{
    if n < d {
        lemma_ancestor_ends(m, k, n + 1, d);
    }
}

} // verus!
