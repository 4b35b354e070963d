use vstd::prelude::*;
use std::sync::Condvar;
use std::sync::Mutex;
use std::sync::atomic::AtomicBool;
use std::sync::atomic::Ordering;
use crate::sync::condvar_notify_one;
use crate::sync::condvar_wait;
use crate::sync::mutex_lock;
use crate::sync::new_condvar;
use crate::sync::new_mutex;

verus! {

/// One-shot semaphore that parks a retrying transaction until a variable in
/// its read set is written.
///
/// The `blocked` flag lives outside the mutex so that a committer releasing
/// many variables never has to queue behind a sleeper; the mutex exists only
/// for the condition variable. The flag moves from `true` to `false` exactly
/// once; a signal that arrives before the sleeper parks is still honoured,
/// because `wait` tests the flag before and after every park.
pub struct ControlBlock {
    blocked: AtomicBool,
    lock: Mutex<()>,
    wait_cvar: Condvar,
}

impl ControlBlock {
    /// A fresh block, still blocked.
    pub fn new() -> ControlBlock {
        ControlBlock {
            blocked: AtomicBool::new(true),
            lock: new_mutex(),
            wait_cvar: new_condvar(),
        }
    }

    /// Record that a subscribed variable has changed and wake the sleeper.
    ///
    /// Called by a committing transaction, never by the sleeper itself.
    /// Idempotent, and safe to call before the sleeper has begun waiting.
    pub fn set_changed(&self) {
        self.blocked.store(false, Ordering::SeqCst);
        condvar_notify_one(&self.wait_cvar);
    }

    /// Park the calling thread until `set_changed` runs.
    ///
    /// May return at once if the change already happened, and may return
    /// spuriously after very many parks; the caller revalidates its read
    /// set and retries either way, so a spurious return is only a wasted
    /// transaction attempt, never a wrong result.
    pub fn wait(&self) {
        let mut blocked = self.blocked.load(Ordering::SeqCst);
        let mut guard = mutex_lock(&self.lock);
        let mut parks: u64 = 0xffff_ffff;
        while blocked && parks > 0
            decreases parks,
        {
            guard = condvar_wait(&self.wait_cvar, guard);
            blocked = self.blocked.load(Ordering::SeqCst);
            parks = parks - 1;
        }
    }
}

} // verus!
