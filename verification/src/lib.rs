use vstd::prelude::*;

mod bst;
mod control_block;
mod laws;
mod list;
mod log;
mod res;
mod runtime;
mod sync;
mod transaction;
mod value;
mod variable;

pub use bst::Bst;
pub use bst::lemma_bst_count_is_cardinality;
pub use control_block::ControlBlock;
pub use laws::clock_after;
pub use list::Ll;
pub use list::lemma_ll_len_is_cardinality;
pub use laws::law_commit_advances_by_two;
pub use laws::law_commit_order;
pub use laws::law_exclusion_during_commit;
pub use res::StmError;
pub use res::StmResult;
pub use runtime::Stm;
pub use runtime::acquire_grants;
pub use runtime::acquired;
pub use runtime::in_commit;
pub use runtime::max_snapshot;
pub use runtime::quiescent;
pub use runtime::released;
pub use transaction::Transaction;
pub use value::StmValue;
pub use variable::TVar;
pub use variable::VarControlBlock;

verus! {

/// Signal that the current transaction wants to block until one of the
/// variables it has read changes, and then start over.
pub fn retry<T>() -> (r: StmResult<T>)
    ensures
        r == StmResult::<T>::Err(StmError::Retry),
{
    Err(StmError::Retry)
}

/// Run `f` atomically against the given domain.
///
/// The closure receives a fresh transaction, performs its reads and writes
/// through it, and hands the transaction back together with its outcome: a
/// value to commit, `Fail` to restart at once, or `Retry` to block until a
/// variable it read changes. The call returns the value of the attempt
/// that committed; `None` only when an astronomically large restart budget
/// ran out under unbroken conflicts. A closure that can only answer a value
/// without pending writes never conflicts, so for it success is owed
/// outright.
pub fn atomically<T: StmValue, R, F: Fn(Transaction<T>) -> (Transaction<T>, StmResult<R>)>(
    stm: &Stm,
    f: F,
) -> (r: Option<R>)
    requires
        forall|t: Transaction<T>| t.wf() ==> call_requires(f, (t,)),
        forall|t: Transaction<T>, out: (Transaction<T>, StmResult<R>)|
            call_ensures(f, (t,), out) ==> out.0.wf(),
    ensures
        r matches Some(v) ==> Transaction::<T>::produced_by(f, v),
        (forall|t: Transaction<T>, out: (Transaction<T>, StmResult<R>)|
            t.wmap().is_empty() && call_ensures(f, (t,), out) ==> (out.1 matches Ok(_))
                && out.0.wmap().is_empty()) ==> r is Some,
{
    Transaction::<T>::run(stm, f)
}

} // verus!
