//! Completion detection: whether a freshly detected object is still being
//! written, inferred from partial-marker names in a directory snapshot.

use vstd::prelude::*;
use crate::paths::ends_with;
use crate::paths::str_ends_with;

verus! {

broadcast use vstd::std_specs::vec::group_vec_axioms;

/// A snapshot of one filesystem object: a plain file, or a directory with
/// the objects directly inside it.
pub enum FsNode {
    File { name: String, size: u64 },
    Dir { name: String, entries: Vec<FsNode> },
}

/// The object's own name.
pub open spec fn node_name(node: FsNode) -> Seq<char> {
    match node {
        FsNode::File { name, .. } => name@,
        FsNode::Dir { name, .. } => name@,
    }
}

/// Some direct entry carries the partial-marker suffix in its name.
pub open spec fn has_direct_marker(entries: Seq<FsNode>, suffix: Seq<char>) -> bool {
    exists|i: int| 0 <= i < entries.len() && ends_with(node_name(#[trigger] entries[i]), suffix)
}

/// An in-progress write: a plain file never is (its completion is inferred
/// only from a later successful copy); a directory is when it directly
/// contains an object whose name carries the partial-marker suffix, or when
/// a directory nested anywhere within it does.
pub open spec fn spec_in_progress(node: FsNode, suffix: Seq<char>) -> bool
    decreases node,
{
    match node {
        FsNode::File { .. } => false,
        FsNode::Dir { entries, .. } => has_direct_marker(entries@, suffix) || (exists|i: int|
            0 <= i < entries@.len() && spec_in_progress(#[trigger] entries@[i], suffix)),
    }
}

/// No object anywhere in the snapshot, the root included, carries the
/// partial-marker suffix.
pub open spec fn marker_free(node: FsNode, suffix: Seq<char>) -> bool
    decreases node,
{
    !ends_with(node_name(node), suffix) && match node {
        FsNode::File { .. } => true,
        FsNode::Dir { entries, .. } => forall|i: int|
            0 <= i < entries@.len() ==> marker_free(#[trigger] entries@[i], suffix),
    }
}

/// Decides `spec_in_progress` by re-scanning the snapshot: first the direct
/// entries for a marker name, then every nested directory.
#[verifier::loop_isolation(false)]
pub fn is_in_progress(node: &FsNode, suffix: &str) -> (r: bool)
    ensures
        r == spec_in_progress(*node, suffix@),
    decreases *node,
{
    match node {
        FsNode::File { .. } => false,
        FsNode::Dir { entries, .. } => {
            let mut i: usize = 0;
            while i < entries.len()
                invariant
                    i <= entries@.len(),
                    forall|j: int|
                        0 <= j < i ==> !ends_with(node_name(#[trigger] entries@[j]), suffix@),
                decreases entries@.len() - i,
            {
                let has_marker = match &entries[i] {
                    FsNode::File { name, .. } => str_ends_with(name.as_str(), suffix),
                    FsNode::Dir { name, .. } => str_ends_with(name.as_str(), suffix),
                };
                if has_marker {
                    proof {
                        assert(ends_with(node_name(entries@[i as int]), suffix@));
                    }
                    return true;
                }
                i += 1;
            }
            let mut k: usize = 0;
            while k < entries.len()
                invariant
                    k <= entries@.len(),
                    !has_direct_marker(entries@, suffix@),
                    forall|j: int| 0 <= j < k ==> !spec_in_progress(#[trigger] entries@[j], suffix@),
                decreases entries@.len() - k,
            {
                if is_in_progress(&entries[k], suffix) {
                    return true;
                }
                k += 1;
            }
            false
        },
    }
}

/// The direct entries of a directory; a plain file has none.
pub open spec fn dir_entries(node: FsNode) -> Seq<FsNode> {
    match node {
        FsNode::File { .. } => Seq::empty(),
        FsNode::Dir { entries, .. } => entries@,
    }
}

/// `inner` is `node` itself or a directory nested anywhere within it.
pub open spec fn is_nested_dir(node: FsNode, inner: FsNode) -> bool
    decreases node,
{
    node == inner || (exists|i: int|
        0 <= i < dir_entries(node).len() && is_nested_dir(#[trigger] dir_entries(node)[i], inner))
}

/// While a marker exists anywhere in the snapshot — a direct entry of the
/// detected directory or of any directory nested within it carries the
/// partial suffix — the object is in progress, so it is never copied.
pub proof fn lemma_nested_marker_means_in_progress(node: FsNode, inner: FsNode, suffix: Seq<char>)
    requires
        node is Dir,
        inner is Dir,
        is_nested_dir(node, inner),
        has_direct_marker(dir_entries(inner), suffix),
    ensures
        spec_in_progress(node, suffix),
    decreases node,
{
    if node == inner {
    } else {
        let i = choose|i: int|
            0 <= i < dir_entries(node).len() && is_nested_dir(#[trigger] dir_entries(node)[i], inner);
        let entry = dir_entries(node)[i];
        if entry is File {
            assert(entry == inner);
            assert(false);
        }
        lemma_nested_marker_means_in_progress(entry, inner, suffix);
        assert(spec_in_progress(dir_entries(node)[i], suffix));
    }
}

/// Once every marker is gone from the snapshot, the object is no longer in
/// progress: it becomes eligible on the next probe.
pub proof fn lemma_marker_free_not_in_progress(node: FsNode, suffix: Seq<char>)
    requires
        marker_free(node, suffix),
    ensures
        !spec_in_progress(node, suffix),
    decreases node,
{
    match node {
        FsNode::File { .. } => {},
        FsNode::Dir { entries, .. } => {
            assert forall|i: int| 0 <= i < entries@.len() implies !spec_in_progress(
                #[trigger] entries@[i],
                suffix,
            ) && !ends_with(node_name(entries@[i]), suffix) by {
                assert(marker_free(entries@[i], suffix));
                lemma_marker_free_not_in_progress(entries@[i], suffix);
            }
            assert(!has_direct_marker(entries@, suffix));
        },
    }
}

} // verus!
