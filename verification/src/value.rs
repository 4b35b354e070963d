use vstd::prelude::*;

verus! {

/// A payload that can live in a transactional variable.
///
/// `inv` is the type's own well-formedness: every value committed to a
/// variable satisfies it, and every value read back out of one is known
/// to satisfy it again. `dup` is an explicit clone whose result is known
/// to equal the original, which is what lets a read hand back a copy of
/// the committed value without weakening its contract.
pub trait StmValue: Sized {
    spec fn inv(&self) -> bool;

    fn dup(&self) -> (r: Self)
        ensures
            r == *self,
    ;
}

impl StmValue for i32 {
    open spec fn inv(&self) -> bool {
        true
    }

    fn dup(&self) -> (r: Self)
        ensures
            r == *self,
    {
        *self
    }
}

impl StmValue for i64 {
    open spec fn inv(&self) -> bool {
        true
    }

    fn dup(&self) -> (r: Self)
        ensures
            r == *self,
    {
        *self
    }
}

impl StmValue for u32 {
    open spec fn inv(&self) -> bool {
        true
    }

    fn dup(&self) -> (r: Self)
        ensures
            r == *self,
    {
        *self
    }
}

impl StmValue for u64 {
    open spec fn inv(&self) -> bool {
        true
    }

    fn dup(&self) -> (r: Self)
        ensures
            r == *self,
    {
        *self
    }
}

impl StmValue for usize {
    open spec fn inv(&self) -> bool {
        true
    }

    fn dup(&self) -> (r: Self)
        ensures
            r == *self,
    {
        *self
    }
}

impl StmValue for bool {
    open spec fn inv(&self) -> bool {
        true
    }

    fn dup(&self) -> (r: Self)
        ensures
            r == *self,
    {
        *self
    }
}

} // verus!
