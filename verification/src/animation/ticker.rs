//! Frame ticker: a registry of callbacks fired once per animation frame.

use std::sync::Arc;
use vstd::prelude::*;

use crate::animation::fire_log::FireLog;

verus! {

/// Handle returned by [`AnimationTicker::register`], used to unregister.
#[derive(Clone, Copy, Debug, PartialEq, Eq, Structural)]
pub struct TickHandle(usize);

impl TickHandle {
    /// The number carried by this handle.
    pub closed spec fn id(self) -> nat {
        self.0 as nat
    }
}

/// A callback registered with the ticker: a shared closure, carried
/// unopened through the ticker's bookkeeping.
#[verifier::external_body]
pub struct TickCallback {
    f: Arc<dyn Fn() + Send + Sync>,
}

impl TickCallback {
    /// Wrap a shared closure.
    #[verifier::external_body]
    pub fn from_arc<F: Fn() + Send + Sync + ?Sized + 'static>(cb: Arc<F>) -> (res: TickCallback) {
        TickCallback { f: Arc::new(move || (*cb)()) }
    }

    /// Run the callback once. Nothing is claimed of what the closure does.
    #[verifier::external_body]
    pub fn fire(&self) {
        (self.f)()
    }
}

/// Registry of frame callbacks.
pub struct AnimationTicker {
    active: Vec<(TickHandle, TickCallback)>,
    next_id: usize,
}

impl AnimationTicker {
    /// Every registered handle is below the next handle to be issued.
    #[verifier::type_invariant]
    spec fn handles_below_next(self) -> bool {
        forall|i: int| 0 <= i < self.active@.len() ==> self.active@[i].0.id() < self.next_id
    }

    /// The registered (handle, callback) pairs, in registration order.
    pub closed spec fn entries(&self) -> Seq<(TickHandle, TickCallback)> {
        self.active@
    }

    /// The number that the next registration will carry.
    pub closed spec fn next_handle(&self) -> nat {
        self.next_id as nat
    }

    /// Whether `h` is the handle of a registered callback.
    pub open spec fn is_registered(&self, h: TickHandle) -> bool {
        exists|i: int| 0 <= i < self.entries().len() && self.entries()[i].0 == h
    }

    pub fn new() -> (res: Self)
        ensures
            res.entries() == Seq::<(TickHandle, TickCallback)>::empty(),
            res.next_handle() == 0,
    {
        AnimationTicker { active: Vec::new(), next_id: 0 }
    }

    /// The number that the next registration will carry.
    pub fn next_handle_id(&self) -> (n: usize)
        ensures
            n == self.next_handle(),
    {
        self.next_id
    }

    /// Register a callback; it fires on every `tick` until unregistered.
    pub fn register(&mut self, cb: TickCallback) -> (handle: TickHandle)
        requires
            old(self).next_handle() < usize::MAX,
        ensures
            handle.id() == old(self).next_handle(),
            !old(self).is_registered(handle),
            final(self).next_handle() == old(self).next_handle() + 1,
            final(self).entries().len() == old(self).entries().len() + 1,
            final(self).entries().drop_last() == old(self).entries(),
            final(self).entries().last() == (handle, cb),
    {
        proof { use_type_invariant(&*self); }
        let handle = TickHandle(self.next_id);
        self.next_id = self.next_id + 1;
        let mut entries: Vec<(TickHandle, TickCallback)> = Vec::new();
        std::mem::swap(&mut entries, &mut self.active);
        entries.push((handle, cb));
        self.active = entries;
        handle
    }

    /// Remove every callback registered under `handle`.
    #[verifier::spinoff_prover]
    pub fn unregister(&mut self, handle: TickHandle)
        ensures
            final(self).entries() == old(self).entries().filter(|e: (TickHandle, TickCallback)| e.0 != handle),
            final(self).next_handle() == old(self).next_handle(),
    {
        proof { use_type_invariant(&*self); }
        let ghost old_entries = self.active@;
        let ghost keep = |e: (TickHandle, TickCallback)| e.0 != handle;
        let mut kept: Vec<(TickHandle, TickCallback)> = Vec::new();
        let mut rest: Vec<(TickHandle, TickCallback)> = Vec::new();
        std::mem::swap(&mut rest, &mut self.active);
        let ghost mut i: int = 0;
        while rest.len() > 0
            invariant
                0 <= i <= old_entries.len(),
                keep == (|e: (TickHandle, TickCallback)| e.0 != handle),
                rest@ == old_entries.skip(i),
                kept@ == old_entries.take(i).filter(keep),
                forall|j: int| 0 <= j < old_entries.len() ==> old_entries[j].0.id() < self.next_id,
            decreases rest@.len(),
        {
            let entry = rest.remove(0);
            proof {
                assert(entry == old_entries[i]);
                assert(rest@ =~= old_entries.skip(i + 1));
                assert(old_entries.take(i + 1) =~= old_entries.take(i).push(entry));
                old_entries.take(i).lemma_filter_push(entry, keep);
            }
            if entry.0 != handle {
                kept.push(entry);
            }
            proof {
                i = i + 1;
            }
        }
        proof {
            assert(rest@.len() == 0);
            assert(i == old_entries.len());
            assert(old_entries.take(i) =~= old_entries);
            assert(kept@ == old_entries.filter(keep));
            assert forall|j: int| 0 <= j < kept@.len() implies kept@[j].0.id() < self.next_id by {
                assert(old_entries.filter(keep).contains(kept@[j]));
                old_entries.lemma_filter_contains_rev(keep, kept@[j]);
            }
        }
        self.active = kept;
        assert(self.active@ == old_entries.filter(keep));
    }

    /// Fire every registered callback once, in registration order. The log
    /// returned holds the callbacks as they fired.
    pub fn tick(&self) -> (log: FireLog)
        ensures
            log.fired() == self.entries().map_values(|e: (TickHandle, TickCallback)| e.1),
    {
        let mut log = FireLog::new();
        let n = self.active.len();
        for i in 0..n
            invariant
                n == self.active@.len(),
                log.fired() == self.active@.take(i as int).map_values(|e: (TickHandle, TickCallback)| e.1),
        {
            log.fire(&self.active[i].1);
            proof {
                assert(self.active@.take(i + 1) =~= self.active@.take(i as int).push(self.active@[i as int]));
            }
            assert(log.fired() =~= self.active@.take(i + 1).map_values(|e: (TickHandle, TickCallback)| e.1));
        }
        assert(self.active@.take(n as int) =~= self.active@);
        log
    }

    /// Whether any callback is registered.
    pub fn has_active(&self) -> (res: bool)
        ensures
            res == (self.entries().len() > 0),
    {
        self.active.len() > 0
    }
}

impl Default for AnimationTicker {
    fn default() -> (res: Self)
        ensures
            res.entries() == Seq::<(TickHandle, TickCallback)>::empty(),
            res.next_handle() == 0,
    {
        Self::new()
    }
}

/// Keeping the entries whose handle differs from `h` leaves a sequence that
/// never held `h` unchanged.
proof fn lemma_filter_absent_handle(s: Seq<(TickHandle, TickCallback)>, h: TickHandle)
    requires
        forall|i: int| 0 <= i < s.len() ==> s[i].0 != h,
    ensures
        s.filter(|e: (TickHandle, TickCallback)| e.0 != h) == s,
    decreases s.len(),
{
    if s.len() > 0 {
        let init = s.drop_last();
        lemma_filter_absent_handle(init, h);
        init.lemma_filter_push(s.last(), |e: (TickHandle, TickCallback)| e.0 != h);
        assert(init.push(s.last()) =~= s);
    }
}

/// Unregistering the handle that a registration just issued removes exactly
/// that registration: the entries are those held before it.
pub proof fn lemma_unregister_undoes_register(
    before: Seq<(TickHandle, TickCallback)>,
    h: TickHandle,
    cb: TickCallback,
)
    requires
        forall|i: int| 0 <= i < before.len() ==> before[i].0 != h,
    ensures
        before.push((h, cb)).filter(|e: (TickHandle, TickCallback)| e.0 != h) == before,
{
    lemma_filter_absent_handle(before, h);
    before.lemma_filter_push((h, cb), |e: (TickHandle, TickCallback)| e.0 != h);
}

/// Along a run of ticker calls, the count of issued handles never goes
/// down: `register` moves it up by one and every other call keeps it.
proof fn lemma_next_handle_grows(states: Seq<AnimationTicker>, issued: Seq<Option<TickHandle>>, a: int, b: int)
    requires
        states.len() == issued.len() + 1,
        forall|i: int|
            0 <= i < issued.len() ==> #[trigger] states[i + 1].next_handle() >= states[i].next_handle(),
        0 <= a <= b < states.len(),
    ensures
        states[a].next_handle() <= states[b].next_handle(),
    decreases b - a,
{
    if a < b {
        lemma_next_handle_grows(states, issued, a, b - 1);
        assert(states[(b - 1) + 1].next_handle() >= states[b - 1].next_handle());
    }
}

/// Handles are fresh: along any run of calls on one ticker (each
/// `register`, issuing `Some(handle)`, or any other call, issuing `None`),
/// no handle is issued twice, even after the earlier one was unregistered.
pub proof fn lemma_handles_never_repeat(states: Seq<AnimationTicker>, issued: Seq<Option<TickHandle>>)
    requires
        states.len() == issued.len() + 1,
        forall|i: int|
            0 <= i < issued.len() ==> match #[trigger] issued[i] {
                Some(h) => h.id() == states[i].next_handle() && states[i + 1].next_handle()
                    == states[i].next_handle() + 1,
                None => states[i + 1].next_handle() == states[i].next_handle(),
            },
    ensures
        forall|a: int, b: int|
            0 <= a < b < issued.len() && issued[a] is Some && issued[b] is Some ==> #[trigger] issued[a]
                != #[trigger] issued[b],
{
    assert forall|i: int| 0 <= i < issued.len() implies #[trigger] states[i + 1].next_handle() >= states[i].next_handle() by {
        // Split on whether step `i` issued a handle.
        if issued[i] is Some {
        }
    }
    assert forall|a: int, b: int|
        0 <= a < b < issued.len() && issued[a] is Some && issued[b] is Some implies #[trigger] issued[a]
            != #[trigger] issued[b] by {
        lemma_next_handle_grows(states, issued, a + 1, b);
    }
}

/// Callbacks fire in registration order: when `cb1` and then `cb2` are
/// registered on a ticker (taking it from `t0` through `t1` to `t2`, as
/// `register` states), a `tick` on `t2` fires the callbacks that were
/// registered before, then `cb1`, then `cb2`, each once.
pub proof fn lemma_tick_fires_in_registration_order(
    t0: AnimationTicker,
    t1: AnimationTicker,
    t2: AnimationTicker,
    h1: TickHandle,
    h2: TickHandle,
    cb1: TickCallback,
    cb2: TickCallback,
    fired: Seq<TickCallback>,
)
    requires
        t1.entries().drop_last() == t0.entries(),
        t1.entries().len() == t0.entries().len() + 1,
        t1.entries().last() == (h1, cb1),
        t2.entries().drop_last() == t1.entries(),
        t2.entries().len() == t1.entries().len() + 1,
        t2.entries().last() == (h2, cb2),
        fired == t2.entries().map_values(|e: (TickHandle, TickCallback)| e.1),
    ensures
        fired == t0.entries().map_values(|e: (TickHandle, TickCallback)| e.1).push(cb1).push(cb2),
        fired.len() == t0.entries().len() + 2,
        fired[fired.len() - 2] == cb1,
        fired[fired.len() - 1] == cb2,
{
    assert(t1.entries() =~= t0.entries().push((h1, cb1)));
    assert(t2.entries() =~= t1.entries().push((h2, cb2)));
    assert(fired =~= t0.entries().map_values(|e: (TickHandle, TickCallback)| e.1).push(cb1).push(cb2));
}

} // verus!
