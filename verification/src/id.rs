//! Keys of elements and render objects.

use vstd::prelude::*;

verus! {

/// The version of a 64-bit slot key: the high half (the low half is the
/// slot index).
pub open spec fn key_version(raw: u64) -> u64 {
    raw / 0x1_0000_0000
}

/// A raw key is well formed when its version is odd: slots that hold a value
/// always carry an odd version, so every key handed out has one.
pub open spec fn raw_key_is_well_formed(raw: u64) -> bool {
    key_version(raw) % 2 == 1
}

/// Generational key of an element in the [`ElementRegistry`](crate::element::ElementRegistry).
///
/// The value is the 64-bit form of a slot-map key: slot index in the low
/// half, version in the high half. Only the registry hands keys out.
#[derive(Debug, Clone, Copy, PartialEq, Eq, Hash, Structural)]
pub struct ElementKey(pub(crate) u64);

impl ElementKey {
    #[verifier::type_invariant]
    pub closed spec fn well_formed(self) -> bool {
        raw_key_is_well_formed(self.0)
    }

    /// The 64-bit value of the key.
    pub closed spec fn raw(self) -> u64 {
        self.0
    }

    /// The key whose 64-bit value is `raw`, a value handed out by the
    /// registry's slot map.
    pub(crate) fn from_well_formed_raw(raw: u64) -> (res: ElementKey)
        requires
            raw_key_is_well_formed(raw),
        ensures
            res.raw() == raw,
    {
        ElementKey(raw)
    }

    /// Two element keys are the same key exactly when their 64-bit values are.
    pub proof fn lemma_raw_injective(self, other: ElementKey)
        ensures
            (self.raw() == other.raw()) == (self == other),
    {
    }

    /// The 64-bit value of the key.
    pub fn as_raw(&self) -> (res: u64)
        ensures
            res == self.raw(),
            raw_key_is_well_formed(res),
    {
        proof { use_type_invariant(self); }
        self.0
    }
}

/// Key of a render object.
#[derive(Debug, Clone, Copy, PartialEq, Eq, Hash, Structural)]
pub struct RenderObjectKey(pub u64);

impl RenderObjectKey {
    /// Make a key from its 64-bit value.
    pub fn from_raw(raw: u64) -> (res: Self)
        ensures
            res.0 == raw,
    {
        RenderObjectKey(raw)
    }

    /// The 64-bit value of the key.
    pub fn as_raw(&self) -> (res: u64)
        ensures
            res == self.0,
    {
        self.0
    }
}

} // verus!
