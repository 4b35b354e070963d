use vstd::prelude::*;

verus! {

/// Why a transaction attempt stopped before producing a value.
///
/// `Fail` is a transient conflict: the attempt is thrown away and the
/// closure runs again at once. `Retry` is an explicit request from the
/// user closure to block until a variable in the read set changes.
#[derive(Clone, Copy, Debug, PartialEq, Eq, Structural)]
pub enum StmError {
    Fail,
    Retry,
}

/// Result of one transactional operation or one attempt of a closure.
pub type StmResult<T> = Result<T, StmError>;

} // verus!
