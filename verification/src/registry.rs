//! Dedup registries: grow-only sets of paths that record which objects have
//! already been claimed for moving and which destinations have completed.

use vstd::prelude::*;
use crate::paths::FsPath;

verus! {

/// A grow-only set of paths. One registry records the paths already claimed
/// for moving, another the destinations whose copies completed; both only
/// ever grow for the life of the process.
pub struct PathSet {
    items: Vec<FsPath>,
}

impl View for PathSet {
    type V = Set<Seq<Seq<char>>>;

    closed spec fn view(&self) -> Set<Seq<Seq<char>>> {
        Set::new(
            |p: Seq<Seq<char>>|
                exists|i: int| 0 <= i < self.items@.len() && self.items@[i]@ == p,
        )
    }
}

impl PathSet {
    /// An empty registry.
    pub fn new() -> (r: PathSet)
        ensures
            r@ =~= Set::<Seq<Seq<char>>>::empty(),
    {
        PathSet { items: Vec::new() }
    }

    /// True when `p` has been recorded.
    pub fn contains(&self, p: &FsPath) -> (r: bool)
        ensures
            r == self@.contains(p@),
    {
        let mut i: usize = 0;
        while i < self.items.len()
            invariant
                i <= self.items@.len(),
                forall|j: int| 0 <= j < i ==> self.items@[j]@ != p@,
            decreases self.items@.len() - i,
        {
            if self.items[i].path_eq(p) {
                proof {
                    assert(self.items@[i as int]@ == p@);
                }
                return true;
            }
            i += 1;
        }
        false
    }

    /// Records `p` without testing for presence; the destination registry
    /// records a path only after its copy fully succeeded.
    pub fn record(&mut self, p: &FsPath)
        ensures
            final(self)@ =~= old(self)@.insert(p@),
    {
        self.items.push(p.duplicate());
        proof {
            self.lemma_view_after_push(*old(self), p@);
        }
    }

    /// Claims `p`: succeeds exactly when `p` was absent, and `p` is recorded
    /// either way. A path is claimed successfully at most once for the life
    /// of the registry.
    pub fn claim(&mut self, p: &FsPath) -> (claimed: bool)
        ensures
            claimed == !old(self)@.contains(p@),
            final(self)@ =~= old(self)@.insert(p@),
    {
        if self.contains(p) {
            proof {
                assert(self@ =~= self@.insert(p@));
            }
            false
        } else {
            self.items.push(p.duplicate());
            proof {
                self.lemma_view_after_push(*old(self), p@);
            }
            true
        }
    }

    /// After pushing a path whose view is `p` onto `pre`'s items, the
    /// registry's set is `pre`'s set with `p` inserted.
    proof fn lemma_view_after_push(&self, pre: PathSet, p: Seq<Seq<char>>)
        requires
            self.items@.len() == pre.items@.len() + 1,
            self.items@.last()@ == p,
            forall|i: int| 0 <= i < pre.items@.len() ==> self.items@[i] == pre.items@[i],
        ensures
            self@ =~= pre@.insert(p),
    {
        assert forall|q: Seq<Seq<char>>| self@.contains(q) implies pre@.insert(p).contains(
            q,
        ) by {
            let i = choose|i: int| 0 <= i < self.items@.len() && self.items@[i]@ == q;
            if i < pre.items@.len() {
                assert(pre.items@[i]@ == q);
            }
        }
        assert forall|q: Seq<Seq<char>>| pre@.insert(p).contains(q) implies self@.contains(
            q,
        ) by {
            if pre@.contains(q) {
                let i = choose|i: int| 0 <= i < pre.items@.len() && pre.items@[i]@ == q;
                assert(self.items@[i]@ == q);
            } else {
                assert(self.items@.last()@ == q);
            }
        }
    }
}

} // verus!
