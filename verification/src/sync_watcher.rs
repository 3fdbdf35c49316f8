//! Mirror mode: a one-time fingerprint reconciliation of two trees, then
//! live propagation of created and removed objects from source to
//! destination.

use vstd::prelude::*;
use crate::config::PathConfig;
use crate::paths::FsPath;

verus! {

/// A (relative path, size) pair used to compare two trees without reading
/// content. Recomputed on every reconciliation pass, never mutated.
pub struct Fingerprint {
    pub rel_path: FsPath,
    pub size: u64,
}

impl View for Fingerprint {
    type V = (Seq<Seq<char>>, u64);

    open spec fn view(&self) -> (Seq<Seq<char>>, u64) {
        (self.rel_path@, self.size)
    }
}

impl Fingerprint {
    pub fn new(rel_path: FsPath, size: u64) -> (r: Fingerprint)
        ensures
            r@ == (rel_path@, size),
    {
        Fingerprint { rel_path, size }
    }

    /// A copy with the same relative path and size.
    pub fn duplicate(&self) -> (r: Fingerprint)
        ensures
            r@ == self@,
    {
        Fingerprint { rel_path: self.rel_path.duplicate(), size: self.size }
    }

    /// Two fingerprints match when both the relative path and the size do.
    pub fn matches(&self, other: &Fingerprint) -> (r: bool)
        ensures
            r == (self@ == other@),
    {
        self.size == other.size && self.rel_path.path_eq(&other.rel_path)
    }
}

/// The set of fingerprints a scan of one tree produced.
pub open spec fn fingerprint_set(list: Seq<Fingerprint>) -> Set<(Seq<Seq<char>>, u64)> {
    Set::new(
        |v: (Seq<Seq<char>>, u64)| exists|i: int| 0 <= i < list.len() && list[i]@ == v,
    )
}

/// The views of a scan list, in scan order.
pub open spec fn fingerprint_views(list: Seq<Fingerprint>) -> Seq<(Seq<Seq<char>>, u64)> {
    list.map_values(|f: Fingerprint| f@)
}

/// Keeps exactly the fingerprints without a match in `other`.
pub open spec fn without_match(other: Set<(Seq<Seq<char>>, u64)>) -> spec_fn(
    (Seq<Seq<char>>, u64),
) -> bool {
    |v: (Seq<Seq<char>>, u64)| !other.contains(v)
}

/// True when some fingerprint of `list` matches `f`.
pub fn list_contains(list: &Vec<Fingerprint>, f: &Fingerprint) -> (r: bool)
    ensures
        r == fingerprint_set(list@).contains(f@),
{
    let mut i: usize = 0;
    while i < list.len()
        invariant
            i <= list@.len(),
            forall|j: int| 0 <= j < i ==> list@[j]@ != f@,
        decreases list@.len() - i,
    {
        if list[i].matches(f) {
            proof {
                assert(list@[i as int]@ == f@);
            }
            return true;
        }
        i += 1;
    }
    false
}

/// The fingerprints of `base` without a match in `other`: exactly the
/// objects the reconciliation pass deletes from `base`'s tree.
#[verifier::loop_isolation(false)]
pub fn remove_difference(base: &Vec<Fingerprint>, other: &Vec<Fingerprint>) -> (r: Vec<
    Fingerprint,
>)
    ensures
        fingerprint_views(r@) == fingerprint_views(base@).filter(
            without_match(fingerprint_set(other@)),
        ),
        fingerprint_set(r@) == fingerprint_set(base@).difference(fingerprint_set(other@)),
{
    let ghost w = fingerprint_views(base@);
    let ghost pred = without_match(fingerprint_set(other@));
    let mut out: Vec<Fingerprint> = Vec::new();
    let mut i: usize = 0;
    while i < base.len()
        invariant
            i <= base@.len(),
            fingerprint_views(out@) == w.take(i as int).filter(pred),
            fingerprint_set(out@) == fingerprint_set(base@.take(i as int)).difference(
                fingerprint_set(other@),
            ),
        decreases base@.len() - i,
    {
        let ghost pre = out@;
        let keep = !list_contains(other, &base[i]);
        if keep {
            out.push(base[i].duplicate());
            proof {
                lemma_fingerprint_set_push(pre, out@, base@[i as int]@);
                assert(fingerprint_views(out@) =~= fingerprint_views(pre).push(
                    base@[i as int]@,
                ));
            }
        }
        proof {
            reveal_with_fuel(Seq::filter, 2);
            assert(keep == pred(w[i as int]));
            assert(w.take(i + 1).drop_last() =~= w.take(i as int));
            assert(w.take(i + 1).last() == w[i as int]);
            assert(fingerprint_views(out@) =~= w.take(i + 1).filter(pred));
            lemma_fingerprint_set_take_one_more(base@, i as int);
            assert(fingerprint_set(out@) =~= fingerprint_set(base@.take(i + 1)).difference(
                fingerprint_set(other@),
            ));
        }
        i += 1;
    }
    proof {
        assert(base@.take(base@.len() as int) =~= base@);
        assert(w.take(base@.len() as int) =~= w);
    }
    out
}

/// Appending one fingerprint inserts its view into the list's set.
proof fn lemma_fingerprint_set_push(pre: Seq<Fingerprint>, post: Seq<Fingerprint>, v: (
    Seq<Seq<char>>,
    u64,
))
    requires
        post.len() == pre.len() + 1,
        post.last()@ == v,
        forall|i: int| 0 <= i < pre.len() ==> post[i] == pre[i],
    ensures
        fingerprint_set(post) == fingerprint_set(pre).insert(v),
{
    assert forall|q: (Seq<Seq<char>>, u64)| fingerprint_set(post).contains(q) implies
        fingerprint_set(pre).insert(v).contains(q) by {
        let i = choose|i: int| 0 <= i < post.len() && post[i]@ == q;
        if i < pre.len() {
            assert(pre[i]@ == q);
        }
    }
    assert forall|q: (Seq<Seq<char>>, u64)| fingerprint_set(pre).insert(v).contains(q) implies
        fingerprint_set(post).contains(q) by {
        if fingerprint_set(pre).contains(q) {
            let i = choose|i: int| 0 <= i < pre.len() && pre[i]@ == q;
            assert(post[i]@ == q);
        } else {
            assert(post.last()@ == q);
        }
    }
    assert(fingerprint_set(post) =~= fingerprint_set(pre).insert(v));
}

/// Taking one more element of the scan list grows its set by that
/// fingerprint.
proof fn lemma_fingerprint_set_take_one_more(list: Seq<Fingerprint>, k: int)
    requires
        0 <= k < list.len(),
    ensures
        fingerprint_set(list.take(k + 1)) == fingerprint_set(list.take(k)).insert(list[k]@),
{
    lemma_fingerprint_set_push(list.take(k), list.take(k + 1), list[k]@);
}

/// Reconciliation convergence: deleting from each tree the fingerprints
/// absent from the other leaves both trees with one and the same fingerprint
/// set — the intersection of the two scans — and no object present on both
/// sides with a matching fingerprint is in either deletion set.
pub proof fn lemma_reconciliation_convergence(
    source: Set<(Seq<Seq<char>>, u64)>,
    destination: Set<(Seq<Seq<char>>, u64)>,
)
    ensures
        destination.difference(destination.difference(source)) =~= source.intersect(destination),
        source.difference(source.difference(destination)) =~= source.intersect(destination),
        forall|v: (Seq<Seq<char>>, u64)|
            source.contains(v) && #[trigger] destination.contains(v) ==> !destination.difference(
                source,
            ).contains(v) && !source.difference(destination).contains(v),
{
}

/// One watched root in Mirror mode.
pub struct SyncWatcher(pub PathConfig);

impl SyncWatcher {
    pub fn new(config: PathConfig) -> (r: SyncWatcher)
        ensures
            r.0 == config,
    {
        SyncWatcher(config)
    }

    /// The mirrored place of a reported source path: its path relative to
    /// the source root, joined under the destination root. Created objects
    /// are copied there; removed objects are deleted there.
    pub fn mirror_destination(&self, path: &FsPath) -> (r: Option<FsPath>)
        ensures
            match r {
                Some(d) => self.0.source@.is_prefix_of(path@) && d@ == self.0.destination@
                    + path@.skip(self.0.source@.len() as int),
                None => !self.0.source@.is_prefix_of(path@),
            },
    {
        match path.strip_prefix(&self.0.source) {
            Some(rel) => Some(self.0.destination.join(&rel)),
            None => None,
        }
    }

    /// After a mirrored file was deleted, its parent directory is pruned
    /// exactly when it was left without entries; only this single level is
    /// pruned, never a grandparent.
    pub fn should_prune_parent(&self, entries_left: usize) -> (r: bool)
        ensures
            r == (entries_left == 0),
    {
        entries_left == 0
    }
}

/// Live mirror correctness, the naming half: an object created or removed at
/// relative path `rel` under the source root is mirrored at exactly `rel`
/// under the destination root.
pub proof fn lemma_live_mirror_paths(
    source: Seq<Seq<char>>,
    destination: Seq<Seq<char>>,
    rel: Seq<Seq<char>>,
)
    ensures
        source.is_prefix_of(source + rel),
        destination + (source + rel).skip(source.len() as int) == destination + rel,
{
    assert(source =~= (source + rel).take(source.len() as int));
    assert((source + rel).skip(source.len() as int) =~= rel);
}

impl From<PathConfig> for SyncWatcher {
    fn from(config: PathConfig) -> (r: SyncWatcher) {
        SyncWatcher(config)
    }
}

impl vstd::std_specs::convert::FromSpecImpl<PathConfig> for SyncWatcher {
    open spec fn obeys_from_spec() -> bool {
        true
    }

    open spec fn from_spec(config: PathConfig) -> SyncWatcher {
        SyncWatcher(config)
    }
}

} // verus!
