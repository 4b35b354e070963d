use vstd::prelude::*;
use std::sync::Arc;
use std::sync::Condvar;
use std::sync::Mutex;
use std::sync::MutexGuard;

verus! {

#[verifier::external_type_specification]
#[verifier::external_body]
#[verifier::reject_recursive_types(T)]
pub struct ExMutex<T: ?Sized>(Mutex<T>);

#[verifier::external_type_specification]
#[verifier::external_body]
#[verifier::reject_recursive_types(T)]
pub struct ExMutexGuard<'a, T: ?Sized + 'a>(MutexGuard<'a, T>);

#[verifier::external_type_specification]
#[verifier::external_body]
pub struct ExCondvar(Condvar);

/// Relies on Mutex::new: wraps the unit value in a fresh, unlocked mutex.
#[verifier::external_body]
pub(crate) fn new_mutex() -> Mutex<()> {
    Mutex::new(())
}

/// Relies on Condvar::new: a fresh condition variable with no waiters.
#[verifier::external_body]
pub(crate) fn new_condvar() -> Condvar {
    Condvar::new()
}

/// Relies on Mutex::lock: blocks until the mutex is free and holds it until
/// the guard is dropped. Panics only if a previous holder panicked while
/// holding it, which no verified holder of this crate does.
#[verifier::external_body]
pub(crate) fn mutex_lock<'a>(m: &'a Mutex<()>) -> MutexGuard<'a, ()> {
    m.lock().unwrap()
}

/// Relies on Condvar::wait: releases the mutex while the thread is parked
/// and holds it again when the call returns; the return may be spurious,
/// so callers re-check their predicate.
#[verifier::external_body]
pub(crate) fn condvar_wait<'a>(cv: &Condvar, g: MutexGuard<'a, ()>) -> MutexGuard<'a, ()> {
    cv.wait(g).unwrap()
}

/// Relies on Condvar::notify_one: wakes one thread parked on the condition
/// variable, if any; a wakeup that arrives before the sleeper parks is kept
/// pending by the sleeper's own flag, not by the condition variable.
#[verifier::external_body]
pub(crate) fn condvar_notify_one(cv: &Condvar) {
    cv.notify_one();
}

/// Relies on Clone for Arc: the new handle refers to the same allocation,
/// so the value seen through it equals the value seen through the old one.
#[verifier::external_body]
pub(crate) fn arc_dup<T>(a: &Arc<T>) -> (r: Arc<T>)
    ensures
        *r == **a,
{
    Arc::clone(a)
}

} // verus!
