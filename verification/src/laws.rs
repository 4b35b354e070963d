use vstd::prelude::*;
use crate::runtime::acquire_grants;
use crate::runtime::acquired;
use crate::runtime::in_commit;
use crate::runtime::quiescent;
use crate::runtime::released;

verus! {

/// A successful commit drives the clock from its quiescent snapshot through
/// the odd in-flight state to the next quiescent value: exactly two past
/// the snapshot, and strictly past everything the committer observed.
pub proof fn law_commit_advances_by_two(snapshot: int)
    requires
        quiescent(snapshot),
    ensures
        in_commit(acquired(snapshot)),
        quiescent(released(snapshot)),
        released(snapshot) == snapshot + 2,
        snapshot < acquired(snapshot) < released(snapshot),
{
}

/// Exclusion during an odd clock: while one commit is in flight the clock
/// is odd, and acquire — which grants only on the quiescent value the
/// challenger sampled — can grant no second committer.
pub proof fn law_exclusion_during_commit(clock: int, snapshot: int)
    requires
        in_commit(clock),
        quiescent(snapshot),
    ensures
        !acquire_grants(clock, snapshot),
{
}

/// The clock after a run of back-to-back commits, each released from the
/// value the one before it published.
pub open spec fn clock_after(snapshot: int, commits: nat) -> int
    decreases commits,
{
    if commits == 0 {
        snapshot
    } else {
        released(clock_after(snapshot, (commits - 1) as nat))
    }
}

/// Commit order: a run of commits produces adjacent quiescent clock values
/// with no gap beyond two per commit, so the clock never decreases and
/// grows by exactly two for each commit.
pub proof fn law_commit_order(snapshot: int, commits: nat)
    requires
        quiescent(snapshot),
    ensures
        quiescent(clock_after(snapshot, commits)),
        clock_after(snapshot, commits) == snapshot + 2 * commits,
        commits > 0 ==> clock_after(snapshot, commits) == clock_after(
            snapshot,
            (commits - 1) as nat,
        ) + 2,
    decreases commits,
{
    if commits > 0 {
        law_commit_order(snapshot, (commits - 1) as nat);
    }
}

} // verus!
