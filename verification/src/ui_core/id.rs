//! Widget identity types.
//!
//! Widgets that need stable identity across frames (for focus tracking,
//! hover state, etc.) use a `WidgetId` derived from a stable key.

use std::collections::hash_map::DefaultHasher;
use std::hash::{Hash, Hasher};
use vstd::prelude::*;
use vstd::std_specs::hash::DefaultHasherAdditionalSpecFns;

verus! {

/// The state (the byte writes so far) of a `DefaultHasher` whose state was
/// `before` after `str::hash` has fed it the string `key`.
pub uninterp spec fn str_hash_state(before: Seq<Seq<u8>>, key: Seq<char>) -> Seq<Seq<u8>>;

/// `<str as Hash>::hash`: feeds `key` to `state`. What it writes is a fixed
/// function of the state before and the key's characters.
#[verifier::external_body]
fn hash_str_into(key: &str, state: &mut DefaultHasher)
    ensures
        final(state)@ == str_hash_state(old(state)@, key@),
{
    key.hash(state)
}

/// The widget id of a stable key: the `DefaultHasher` digest of the key.
pub open spec fn widget_id_of_key(key: Seq<char>) -> u64 {
    DefaultHasher::spec_finish(str_hash_state(Seq::empty(), key))
}

/// Unique identifier for a widget instance.
///
/// WidgetIds are deterministically derived from stable key strings,
/// allowing widgets to maintain identity across tree rebuilds.
#[derive(Debug, Clone, Copy, PartialEq, Eq, Hash, Structural)]
pub struct WidgetId(pub u64);

impl WidgetId {
    /// Create a WidgetId deterministically from a stable `key` string.
    ///
    /// The same key always produces the same WidgetId.
    pub fn from_key(key: &str) -> (id: Self)
        ensures
            id.0 == widget_id_of_key(key@),
            id.0 == DefaultHasher::spec_finish(str_hash_state(Seq::empty(), key@)),
    {
        let mut hasher = DefaultHasher::new();
        hash_str_into(key, &mut hasher);
        WidgetId(hasher.finish())
    }

    /// Create a WidgetId from a raw u64 value.
    pub fn from_raw(id: u64) -> (res: Self)
        ensures
            res.0 == id,
    {
        WidgetId(id)
    }

    /// Get the raw u64 value of this WidgetId.
    pub fn as_raw(&self) -> (res: u64)
        ensures
            res == self.0,
    {
        self.0
    }
}

/// A widget id digests the whole key: it is what a fresh `DefaultHasher`
/// finishes with after `str::hash` has fed it every character of the key,
/// so keys that share a prefix and differ later are hashed as different
/// inputs.
pub proof fn lemma_widget_id_hashes_whole_key(key: Seq<char>)
    ensures
        widget_id_of_key(key) == DefaultHasher::spec_finish(str_hash_state(Seq::<Seq<u8>>::empty(), key)),
{
}

} // verus!
