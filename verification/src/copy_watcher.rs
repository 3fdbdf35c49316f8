//! Copy mode: claims newly created paths at most once each and hands every
//! accepted one to its own mover.

use vstd::prelude::*;
use crate::config::PathConfig;
use crate::paths::FsPath;
use crate::paths::ends_with;
use crate::paths::path_views;
use crate::paths::str_ends_with;
use crate::registry::PathSet;

verus! {

/// The suffix an external producer gives an object it is still writing.
pub fn partial_marker_suffix() -> (s: &'static str)
    ensures
        s@ == ".partial"@,
{
    ".partial"
}

/// A path that is itself a partial marker: its file name carries the
/// writer's partial suffix.
pub open spec fn is_partial_marker(p: Seq<Seq<char>>, suffix: Seq<char>) -> bool {
    p.len() > 0 && ends_with(p.last(), suffix)
}

/// Decides `is_partial_marker` on a path's file name.
pub fn path_is_marker(p: &FsPath, suffix: &str) -> (r: bool)
    ensures
        r == is_partial_marker(p@, suffix@),
{
    match p.file_name() {
        Some(name) => str_ends_with(name.as_str(), suffix),
        None => false,
    }
}

/// The claimed-path registry after the first `k` reported paths: every
/// reported path that is not a partial marker is recorded, whether or not
/// its report was the first.
pub open spec fn detect_state(
    claimed: Set<Seq<Seq<char>>>,
    reported: Seq<Seq<Seq<char>>>,
    suffix: Seq<char>,
    k: int,
) -> Set<Seq<Seq<char>>>
    decreases k,
{
    if k <= 0 {
        claimed
    } else {
        let prev = detect_state(claimed, reported, suffix, k - 1);
        if is_partial_marker(reported[k - 1], suffix) {
            prev
        } else {
            prev.insert(reported[k - 1])
        }
    }
}

/// Whether the `k`-th reported path spawns a mover: it is no partial marker
/// and no earlier report already claimed it.
pub open spec fn path_accepted(
    claimed: Set<Seq<Seq<char>>>,
    reported: Seq<Seq<Seq<char>>>,
    suffix: Seq<char>,
    k: int,
) -> bool {
    !is_partial_marker(reported[k], suffix) && !detect_state(
        claimed,
        reported,
        suffix,
        k,
    ).contains(reported[k])
}

/// The accepted paths among the first `k` reports, in report order.
pub open spec fn accepted_upto(
    claimed: Set<Seq<Seq<char>>>,
    reported: Seq<Seq<Seq<char>>>,
    suffix: Seq<char>,
    k: int,
) -> Seq<Seq<Seq<char>>>
    decreases k,
{
    if k <= 0 {
        Seq::empty()
    } else {
        let pre = accepted_upto(claimed, reported, suffix, k - 1);
        if path_accepted(claimed, reported, suffix, k - 1) {
            pre.push(reported[k - 1])
        } else {
            pre
        }
    }
}

/// The registry of claimed paths only grows as reports come in.
proof fn lemma_detect_state_monotone(
    claimed: Set<Seq<Seq<char>>>,
    reported: Seq<Seq<Seq<char>>>,
    suffix: Seq<char>,
    k1: int,
    k2: int,
)
    requires
        0 <= k1 <= k2,
    ensures
        detect_state(claimed, reported, suffix, k1).subset_of(
            detect_state(claimed, reported, suffix, k2),
        ),
    decreases k2 - k1,
{
    if k1 < k2 {
        lemma_detect_state_monotone(claimed, reported, suffix, k1, k2 - 1);
    }
}

/// At-most-once claim: among all the paths reported on one root — within
/// one event or across later events fed through the same registry — two
/// reports of the same path never both spawn a mover.
pub proof fn lemma_at_most_once_spawn(
    claimed: Set<Seq<Seq<char>>>,
    reported: Seq<Seq<Seq<char>>>,
    suffix: Seq<char>,
    i: int,
    j: int,
)
    requires
        0 <= i < j < reported.len(),
        reported[i] == reported[j],
    ensures
        !(path_accepted(claimed, reported, suffix, i) && path_accepted(
            claimed,
            reported,
            suffix,
            j,
        )),
{
    if path_accepted(claimed, reported, suffix, i) {
        assert(detect_state(claimed, reported, suffix, i + 1).contains(reported[i]));
        lemma_detect_state_monotone(claimed, reported, suffix, i + 1, j);
    }
}

/// Whatever the registry holds after `k` reports was already claimed at the
/// start or was reported among the first `k` paths.
proof fn lemma_detect_state_elements(
    claimed: Set<Seq<Seq<char>>>,
    reported: Seq<Seq<Seq<char>>>,
    suffix: Seq<char>,
    k: int,
    q: Seq<Seq<char>>,
)
    requires
        0 <= k,
        detect_state(claimed, reported, suffix, k).contains(q),
    ensures
        claimed.contains(q) || exists|j: int| 0 <= j < k && reported[j] == q,
    decreases k,
{
    if k > 0 {
        if detect_state(claimed, reported, suffix, k - 1).contains(q) {
            lemma_detect_state_elements(claimed, reported, suffix, k - 1, q);
        } else {
            assert(reported[k - 1] == q);
        }
    }
}

/// The first report of a path that is no partial marker and was never
/// claimed before does spawn a mover: together with the at-most-once law,
/// exactly one mover is spawned for it.
pub proof fn lemma_first_report_spawns(
    claimed: Set<Seq<Seq<char>>>,
    reported: Seq<Seq<Seq<char>>>,
    suffix: Seq<char>,
    i: int,
)
    requires
        0 <= i < reported.len(),
        !is_partial_marker(reported[i], suffix),
        !claimed.contains(reported[i]),
        forall|j: int| 0 <= j < i ==> reported[j] != reported[i],
    ensures
        path_accepted(claimed, reported, suffix, i),
{
    if detect_state(claimed, reported, suffix, i).contains(reported[i]) {
        lemma_detect_state_elements(claimed, reported, suffix, i, reported[i]);
    }
}

/// Reports reaching the registry in two batches claim exactly as the single
/// concatenated sequence of reports would: the at-most-once law spans
/// overlapping events.
pub proof fn lemma_detect_state_chains(
    claimed: Set<Seq<Seq<char>>>,
    first: Seq<Seq<Seq<char>>>,
    second: Seq<Seq<Seq<char>>>,
    suffix: Seq<char>,
    k: int,
)
    requires
        0 <= k <= second.len(),
    ensures
        detect_state(
            detect_state(claimed, first, suffix, first.len() as int),
            second,
            suffix,
            k,
        ) == detect_state(claimed, first + second, suffix, first.len() + k),
    decreases k,
{
    if k <= 0 {
        lemma_detect_state_prefix(claimed, first, second, suffix, first.len() as int);
    } else {
        lemma_detect_state_chains(claimed, first, second, suffix, k - 1);
        assert((first + second)[first.len() + k - 1] == second[k - 1]);
    }
}

/// The first `k` steps read only the first `k` reports.
proof fn lemma_detect_state_prefix(
    claimed: Set<Seq<Seq<char>>>,
    first: Seq<Seq<Seq<char>>>,
    second: Seq<Seq<Seq<char>>>,
    suffix: Seq<char>,
    k: int,
)
    requires
        0 <= k <= first.len(),
    ensures
        detect_state(claimed, first + second, suffix, k) == detect_state(
            claimed,
            first,
            suffix,
            k,
        ),
    decreases k,
{
    if k > 0 {
        lemma_detect_state_prefix(claimed, first, second, suffix, k - 1);
        assert((first + second)[k - 1] == first[k - 1]);
    }
}

/// One watched root in Copy mode.
pub struct CopyWatcher(pub PathConfig);

impl CopyWatcher {
    pub fn new(config: PathConfig) -> (r: CopyWatcher)
        ensures
            r.0 == config,
    {
        CopyWatcher(config)
    }

    /// Claims the paths one Created event reports: partial markers and paths
    /// already claimed are dropped, every other path is recorded in the
    /// registry and returned, in report order, for a mover to be spawned on
    /// it. Each distinct path is accepted at most once per registry
    /// lifetime.
    #[verifier::loop_isolation(false)]
    pub fn claim_new_paths(
        &self,
        detected: &mut PathSet,
        paths: &Vec<FsPath>,
        suffix: &str,
    ) -> (accepted: Vec<FsPath>)
        ensures
            final(detected)@ == detect_state(
                old(detected)@,
                path_views(paths@),
                suffix@,
                paths@.len() as int,
            ),
            path_views(accepted@) == accepted_upto(
                old(detected)@,
                path_views(paths@),
                suffix@,
                paths@.len() as int,
            ),
    {
        let ghost reported = path_views(paths@);
        let mut accepted: Vec<FsPath> = Vec::new();
        let mut i: usize = 0;
        while i < paths.len()
            invariant
                i <= paths@.len(),
                detected@ == detect_state(old(detected)@, reported, suffix@, i as int),
                path_views(accepted@) == accepted_upto(
                    old(detected)@,
                    reported,
                    suffix@,
                    i as int,
                ),
            decreases paths@.len() - i,
        {
            let p = &paths[i];
            proof {
                assert(reported[i as int] == p@);
            }
            if !path_is_marker(p, suffix) {
                let claimed = detected.claim(p);
                if claimed {
                    accepted.push(p.duplicate());
                    proof {
                        assert(path_views(accepted@) =~= accepted_upto(
                            old(detected)@,
                            reported,
                            suffix@,
                            i + 1,
                        ));
                    }
                } else {
                    proof {
                        assert(detected@ =~= detect_state(
                            old(detected)@,
                            reported,
                            suffix@,
                            i + 1,
                        ));
                    }
                }
            }
            i += 1;
        }
        accepted
    }
}

impl From<PathConfig> for CopyWatcher {
    fn from(config: PathConfig) -> (r: CopyWatcher) {
        CopyWatcher(config)
    }
}

impl vstd::std_specs::convert::FromSpecImpl<PathConfig> for CopyWatcher {
    open spec fn obeys_from_spec() -> bool {
        true
    }

    open spec fn from_spec(config: PathConfig) -> CopyWatcher {
        CopyWatcher(config)
    }
}

} // verus!
