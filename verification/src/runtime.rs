use vstd::prelude::*;
use std::sync::Arc;
use std::sync::atomic::AtomicU64;
use std::sync::atomic::AtomicUsize;
use std::sync::atomic::Ordering;

verus! {

/// The global sequence clock's parity convention: an even count is a
/// quiescent state, in which no commit is publishing.
pub open spec fn quiescent(c: int) -> bool {
    c % 2 == 0
}

/// An odd count means exactly one committer stands between acquire and
/// release.
pub open spec fn in_commit(c: int) -> bool {
    c % 2 == 1
}

/// The commit gate: a compare-and-swap from `snapshot` grants exclusion
/// exactly when the clock still holds the even value the transaction
/// sampled.
pub open spec fn acquire_grants(clock: int, snapshot: int) -> bool {
    clock == snapshot
}

/// The clock value a successful acquire installs.
pub open spec fn acquired(snapshot: int) -> int {
    snapshot + 1
}

/// The clock value a successful commit publishes on release.
pub open spec fn released(snapshot: int) -> int {
    snapshot + 2
}

/// The largest snapshot the runtime hands out, so that releasing a commit
/// can never overflow the machine word.
pub open spec fn max_snapshot() -> int {
    usize::MAX - 2
}

/// Shared state of one transactional-memory domain: the global sequence
/// clock and the source of variable identities.
///
/// Every handle cloned from one `Stm` shares both counters; transactions
/// and variables created through different domains are unrelated.
#[derive(Clone)]
pub struct Stm {
    clock: Arc<AtomicUsize>,
    ids: Arc<AtomicU64>,
}

impl Stm {
    /// A fresh domain whose clock starts quiescent at zero.
    pub fn new() -> Stm {
        Stm {
            clock: Arc::new(AtomicUsize::new(0)),
            ids: Arc::new(AtomicU64::new(0)),
        }
    }

    /// The current raw clock value, for observation only.
    pub fn clock(&self) -> usize {
        self.clock.load(Ordering::SeqCst)
    }

    /// Sample the clock until a quiescent value is seen, and return it as a
    /// snapshot.
    ///
    /// If a committer keeps the clock odd past the spin budget, the sample
    /// falls back to the even value that preceded the in-flight commit; a
    /// stale snapshot only makes the transaction revalidate, never observe
    /// an inconsistent state.
    pub fn sample_even(&self) -> (s: usize)
        ensures
            quiescent(s as int),
            s as int <= max_snapshot(),
    {
        let mut spins: u64 = 1000;
        let mut v = self.clock.load(Ordering::SeqCst);
        while (v % 2 != 0 || v > usize::MAX - 2) && spins > 0
            decreases spins,
        {
            v = self.clock.load(Ordering::SeqCst);
            spins = spins - 1;
        }
        let w = if v % 2 != 0 { v - 1 } else { v };
        if w > usize::MAX - 2 {
            w - 2
        } else {
            w
        }
    }

    /// Attempt to take the commit gate: compare-and-swap the snapshot for
    /// its odd successor. Returns the odd value now in the clock when the
    /// swap succeeded, and nothing when another commit got there first.
    pub fn try_acquire(&self, snapshot: usize) -> (r: Option<usize>)
        requires
            quiescent(snapshot as int),
            snapshot as int <= max_snapshot(),
        ensures
            r matches Some(v) ==> v as int == acquired(snapshot as int) && in_commit(v as int),
    {
        let swapped = self.clock.compare_exchange(
            snapshot,
            snapshot + 1,
            Ordering::SeqCst,
            Ordering::SeqCst,
        );
        match swapped {
            Ok(_) => Some(snapshot + 1),
            Err(_) => None,
        }
    }

    /// Publish a successful commit: store the snapshot's even successor,
    /// exactly two past the value acquired from.
    pub fn release_commit(&self, snapshot: usize) -> (stored: usize)
        requires
            quiescent(snapshot as int),
            snapshot as int <= max_snapshot(),
        ensures
            stored as int == released(snapshot as int),
            quiescent(stored as int),
            stored > snapshot,
    {
        let stored = snapshot + 2;
        self.clock.store(stored, Ordering::SeqCst);
        stored
    }

    /// Abort while holding exclusion: restore the very even value acquire started
    /// from, so an abandoned commit leaves no trace in the clock.
    pub fn release_abort(&self, snapshot: usize) -> (stored: usize)
        requires
            quiescent(snapshot as int),
            snapshot as int <= max_snapshot(),
        ensures
            stored == snapshot,
            quiescent(stored as int),
    {
        self.clock.store(snapshot, Ordering::SeqCst);
        snapshot
    }

    /// A variable or wait-block identity never handed out before.
    pub(crate) fn fresh_id(&self) -> u64 {
        self.ids.fetch_add(1, Ordering::SeqCst)
    }
}

} // verus!
