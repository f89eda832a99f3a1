//! Component context and key path for auto-scoping.

use std::marker::PhantomData;
use vstd::prelude::*;
use vstd::string::*;

verus! {

/// Segments joined with `/` between neighbours.
pub open spec fn join_with_slash(segments: Seq<Seq<char>>) -> Seq<char>
    decreases segments.len(),
{
    if segments.len() == 0 {
        Seq::empty()
    } else if segments.len() == 1 {
        segments[0]
    } else {
        join_with_slash(segments.drop_last()) + seq!['/'] + segments.last()
    }
}

/// The scoped key of `local` under a path whose segments are `segments`:
/// the joined path, a `/`, then `local`; just `local` when the joined path is
/// empty.
pub open spec fn scoped_key(segments: Seq<Seq<char>>, local: Seq<char>) -> Seq<char> {
    let joined = join_with_slash(segments);
    if joined.len() == 0 {
        local
    } else {
        joined + seq!['/'] + local
    }
}

/// Hierarchical key path for automatic WidgetId scoping.
#[derive(Debug, Clone, PartialEq, Eq)]
pub struct KeyPath {
    segments: Vec<String>,
}

impl KeyPath {
    /// The path's segments, outermost first.
    pub closed spec fn segments(&self) -> Seq<Seq<char>> {
        self.segments@.map_values(|s: String| s@)
    }

    pub fn root() -> (res: Self)
        ensures
            res.segments() == Seq::<Seq<char>>::empty(),
    {
        let res = KeyPath { segments: Vec::new() };
        res
    }

    /// The path one level deeper, under `segment`.
    pub fn child(&self, segment: &str) -> (res: Self)
        ensures
            res.segments() == self.segments().push(segment@),
    {
        let mut segments: Vec<String> = Vec::new();
        let n = self.segments.len();
        for i in 0..n
            invariant
                n == self.segments@.len(),
                segments@.len() == i,
                forall|j: int| 0 <= j < i ==> segments@[j]@ == self.segments@[j]@,
        {
            segments.push(self.segments[i].clone());
        }
        segments.push(String::from_str(segment));
        let res = KeyPath { segments };
        res
    }

    /// The key `local_key` scoped under this path: `a/b/local_key`.
    pub fn scoped(&self, local_key: &str) -> (res: String)
        ensures
            res@ == scoped_key(self.segments(), local_key@),
    {
        let mut result = self.join_segments();
        if !result.as_str().is_empty() {
            let slash = "/";
            proof { reveal_strlit("/"); }
            result.append(slash);
        }
        result.append(local_key);
        result
    }

    /// All segments joined with `/`.
    fn join_segments(&self) -> (res: String)
        ensures
            res@ == join_with_slash(self.segments()),
    {
        let ghost segs = self.segments();
        let mut res = String::new();
        let n = self.segments.len();
        for i in 0..n
            invariant
                n == self.segments@.len(),
                segs == self.segments(),
                res@ == join_with_slash(segs.take(i as int)),
        {
            if i != 0 {
                let slash = "/";
                proof { reveal_strlit("/"); }
                res.append(slash);
                res.append(self.segments[i].as_str());
                assert(segs.take(i + 1).drop_last() =~= segs.take(i as int));
            } else {
                res.append(self.segments[i].as_str());
            }
        }
        assert(segs.take(n as int) =~= segs);
        res
    }
}

impl Default for KeyPath {
    fn default() -> (res: Self)
        ensures
            res.segments() == Seq::<Seq<char>>::empty(),
    {
        Self::root()
    }
}

/// Scoping under the root path leaves a key unchanged.
pub proof fn lemma_root_scoped(local: Seq<char>)
    ensures
        scoped_key(Seq::empty(), local) == local,
{
}

/// Going one level deeper under `segment` and scoping `local` gives the
/// segment's own scoped key, a `/`, then `local` — when no segment is empty.
pub proof fn lemma_child_scoped(segments: Seq<Seq<char>>, segment: Seq<char>, local: Seq<char>)
    requires
        forall|i: int| 0 <= i < segments.len() ==> segments[i].len() > 0,
        segment.len() > 0,
    ensures
        scoped_key(segments.push(segment), local) == scoped_key(segments, segment) + seq!['/'] + local,
{
    lemma_join_nonempty(segments);
    lemma_join_nonempty(segments.push(segment));
    assert(segments.push(segment).drop_last() =~= segments);
}

/// Joining at least one non-empty segment gives a non-empty key.
proof fn lemma_join_nonempty(segments: Seq<Seq<char>>)
    requires
        forall|i: int| 0 <= i < segments.len() ==> segments[i].len() > 0,
    ensures
        segments.len() > 0 ==> join_with_slash(segments).len() > 0,
    decreases segments.len(),
{
    if segments.len() > 1 {
        lemma_join_nonempty(segments.drop_last());
    }
}

/// Context provided to component view functions.
pub struct ComponentContext<'a, M> {
    _marker: PhantomData<&'a M>,
}

} // verus!
