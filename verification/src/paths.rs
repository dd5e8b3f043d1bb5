//! Root-independent paths, held as their sequence of components.

use vstd::prelude::*;

verus! {

/// The mathematical value of a path: its components, outermost first.
pub type PathView = Seq<Seq<char>>;

/// `base` is `path` itself or one of its ancestors: the components of `base`
/// open the components of `path`.
pub open spec fn within(path: PathView, base: PathView) -> bool {
    base.len() <= path.len() && path.subrange(0, base.len() as int) == base
}

/// `ancestor` lies strictly above `path`.
pub open spec fn is_ancestor(ancestor: PathView, path: PathView) -> bool {
    ancestor.len() < path.len() && within(path, ancestor)
}

/// A path relative to a tree root, normalised into whole components.
#[derive(Debug, PartialEq, Eq, Hash)]
pub struct SyncPath {
    pub components: Vec<String>,
}

impl View for SyncPath {
    type V = PathView;

    open spec fn view(&self) -> PathView {
        Seq::new(self.components@.len(), |i: int| self.components@[i]@)
    }
}

impl Clone for SyncPath {
    fn clone(&self) -> (copy: Self)
        ensures
            copy@ == self@,
    {
        let mut components: Vec<String> = Vec::new();
        let mut i: usize = 0;
        while i < self.components.len()
            invariant
                i <= self.components.len(),
                components@.len() == i,
                forall|k: int| 0 <= k < i ==> components@[k]@ == self.components@[k]@,
            decreases self.components.len() - i,
        {
            components.push(self.components[i].clone());
            i += 1;
        }
        let copy = SyncPath { components };
        assert(copy@ =~= self@);
        copy
    }
}

impl SyncPath {
    /// The path made of the given components.
    pub fn new(components: Vec<String>) -> (path: Self)
        ensures
            path@ == Seq::new(components@.len(), |i: int| components@[i]@),
    {
        SyncPath { components }
    }

    /// Number of components; the root itself has depth 0.
    pub fn depth(&self) -> (d: usize)
        ensures
            d == self@.len(),
    {
        self.components.len()
    }

    /// Whether two paths name the same location.
    pub fn same_as(&self, other: &SyncPath) -> (same: bool)
        ensures
            same == (self@ == other@),
    {
        if self.components.len() != other.components.len() {
            assert(self@.len() != other@.len());
            return false;
        }
        let mut i: usize = 0;
        while i < self.components.len()
            invariant
                i <= self.components.len(),
                self.components.len() == other.components.len(),
                forall|k: int| 0 <= k < i ==> self@[k] == other@[k],
            decreases self.components.len() - i,
        {
            if self.components[i] != other.components[i] {
                assert(self@[i as int] != other@[i as int]);
                return false;
            }
            i += 1;
        }
        assert(self@ =~= other@);
        true
    }

    /// Whether `base` is this path or one of its ancestors, compared by whole
    /// components.
    pub fn starts_with(&self, base: &SyncPath) -> (inside: bool)
        ensures
            inside == within(self@, base@),
    {
        if base.components.len() > self.components.len() {
            return false;
        }
        let mut i: usize = 0;
        while i < base.components.len()
            invariant
                i <= base.components.len(),
                base.components.len() <= self.components.len(),
                forall|k: int| 0 <= k < i ==> self@[k] == base@[k],
            decreases base.components.len() - i,
        {
            if self.components[i] != base.components[i] {
                assert(self@.subrange(0, base@.len() as int)[i as int] != base@[i as int]);
                return false;
            }
            i += 1;
        }
        assert(self@.subrange(0, base@.len() as int) =~= base@);
        true
    }
}

} // verus!
