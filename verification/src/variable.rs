use vstd::prelude::*;
use std::sync::Arc;
use vstd::rwlock::RwLock;
use crate::control_block::ControlBlock;
use crate::runtime::Stm;
use crate::sync::arc_dup;
use crate::value::StmValue;

verus! {

/// One committed generation of a variable: the payload and the number of
/// installs that preceded it. A commit always installs a fresh stamp whose
/// version differs from the one it replaces, so equal versions mean that no
/// commit has touched the variable in between — the validation primitive.
pub struct Stamped<T> {
    pub version: u64,
    pub value: Arc<T>,
}

/// What every stamp stored in a variable satisfies: the payload's own
/// well-formedness.
pub open spec fn cell_inv<T: StmValue>(s: Stamped<T>) -> bool {
    (*s.value).inv()
}

type WaitSet = Vec<(u64, Arc<ControlBlock>)>;

/// Per-variable control block: the committed stamp behind a reader-writer
/// gate, a stable identity that names the variable in transaction logs, and
/// the wait subscriptions of retrying transactions.
#[verifier::reject_recursive_types(T)]
pub struct VarControlBlock<T: StmValue> {
    id: u64,
    cell: RwLock<Stamped<T>, spec_fn(Stamped<T>) -> bool>,
    waiters: RwLock<WaitSet, spec_fn(WaitSet) -> bool>,
}

impl<T: StmValue> VarControlBlock<T> {
    #[verifier::type_invariant]
    spec fn ty_inv(&self) -> bool {
        &&& forall|s: Stamped<T>| #[trigger] self.cell.inv(s) <==> cell_inv(s)
        &&& forall|w: WaitSet| #[trigger] self.waiters.inv(w)
    }

    /// The identity the logs are keyed and ordered by.
    pub closed spec fn spec_id(&self) -> u64 {
        self.id
    }

    /// Allocate a control block holding `val` as its first committed value.
    pub fn new(id: u64, val: T) -> (r: Arc<VarControlBlock<T>>)
        requires
            val.inv(),
        ensures
            (*r).spec_id() == id,
    {
        let cell = RwLock::new(
            Stamped { version: 0, value: Arc::new(val) },
            Ghost(|s: Stamped<T>| cell_inv(s)),
        );
        let waiters: RwLock<WaitSet, spec_fn(WaitSet) -> bool> = RwLock::new(
            Vec::new(),
            Ghost(|w: WaitSet| true),
        );
        proof {
            assert(forall|s: Stamped<T>| #[trigger] cell.inv(s) <==> cell_inv(s));
            assert(forall|w: WaitSet| #[trigger] waiters.inv(w));
        }
        Arc::new(VarControlBlock { id, cell, waiters })
    }

    /// Read-latest: the committed stamp, as its version and a shared handle
    /// to its payload. Blocks only while a commit is installing here.
    pub fn read_current(&self) -> (r: (u64, Arc<T>))
        ensures
            (*r.1).inv(),
    {
        proof {
            use_type_invariant(self);
        }
        let handle = self.cell.acquire_read();
        proof {
            assert(cell_inv(handle.view()));
        }
        let stamped = handle.borrow();
        let version = stamped.version;
        let value = arc_dup(&stamped.value);
        proof {
            assert(*value == *stamped.value);
        }
        handle.release_read();
        (version, value)
    }

    /// The version of the committed stamp, for validation.
    pub fn current_version(&self) -> u64 {
        proof {
            use_type_invariant(self);
        }
        let handle = self.cell.acquire_read();
        let version = handle.borrow().version;
        handle.release_read();
        version
    }

    /// The version a fresh install carries: always different from the one
    /// it replaces, wrapping rather than overflowing, so a logged version
    /// that still matches the committed one proves that no commit touched
    /// the variable in between.
    fn next_version(v: u64) -> (r: u64)
        ensures
            r != v,
    {
        if v == u64::MAX {
            0
        } else {
            v + 1
        }
    }

    /// Install a new committed value: replace the stamp with one whose
    /// version differs, then notify and detach every wait subscription.
    ///
    /// Must only be called by the committer that holds the clock's odd
    /// state; the write side of this variable is taken and released inside.
    pub fn install(&self, value: &Arc<T>)
        requires
            (**value).inv(),
    {
        proof {
            use_type_invariant(self);
        }
        let (current, write_handle) = self.cell.acquire_write();
        let stamped = Stamped {
            version: Self::next_version(current.version),
            value: arc_dup(value),
        };
        proof {
            assert(cell_inv(stamped));
        }
        write_handle.release_write(stamped);
        self.notify_all();
    }

    /// Wake and detach every subscribed wait block.
    fn notify_all(&self) {
        proof {
            use_type_invariant(self);
        }
        let (subscribed, write_handle) = self.waiters.acquire_write();
        write_handle.release_write(Vec::new());
        let mut i: usize = 0;
        while i < subscribed.len()
            decreases subscribed.len() - i,
        {
            subscribed[i].1.set_changed();
            i = i + 1;
        }
    }

    /// Attach a wait block under the retrying transaction's key.
    pub fn subscribe(&self, key: u64, block: &Arc<ControlBlock>) {
        proof {
            use_type_invariant(self);
        }
        let (mut subscribed, write_handle) = self.waiters.acquire_write();
        subscribed.push((key, arc_dup(block)));
        write_handle.release_write(subscribed);
    }

    /// Detach whatever the key still subscribes here; a committer may have
    /// drained it already, in which case there is nothing to remove.
    pub fn unsubscribe(&self, key: u64) {
        proof {
            use_type_invariant(self);
        }
        let (subscribed, write_handle) = self.waiters.acquire_write();
        let mut kept: WaitSet = Vec::new();
        let mut i: usize = 0;
        while i < subscribed.len()
            decreases subscribed.len() - i,
        {
            if subscribed[i].0 != key {
                kept.push((subscribed[i].0, arc_dup(&subscribed[i].1)));
            }
            i = i + 1;
        }
        write_handle.release_write(kept);
    }

    /// The identity, as an executable value.
    pub fn get_address(&self) -> (r: u64)
        ensures
            r == self.spec_id(),
    {
        self.id
    }
}

/// Shared-ownership handle binding a payload type to one control block.
///
/// Cloning yields another handle to the same variable.
#[verifier::reject_recursive_types(T)]
pub struct TVar<T: StmValue> {
    ctrl: Arc<VarControlBlock<T>>,
}

impl<T: StmValue> Clone for TVar<T> {
    /// Another handle to the same variable.
    fn clone(&self) -> (r: Self)
        ensures
            r.spec_id() == self.spec_id(),
    {
        TVar { ctrl: arc_dup(&self.ctrl) }
    }
}

impl<T: StmValue> TVar<T> {
    /// The identity of the underlying control block.
    pub closed spec fn spec_id(&self) -> u64 {
        (*self.ctrl).spec_id()
    }

    /// Create a transactional variable holding `val`, registered in the
    /// given domain.
    pub fn new(stm: &Stm, val: T) -> (r: TVar<T>)
        requires
            val.inv(),
    {
        let id = stm.fresh_id();
        TVar { ctrl: VarControlBlock::new(id, val) }
    }

    /// A copy of the currently committed value, outside any transaction.
    pub fn read_atomic(&self) -> (r: T)
        ensures
            r.inv(),
    {
        let value = self.read_ref_atomic();
        value.dup()
    }

    /// A shared handle to the currently committed value, outside any
    /// transaction.
    pub fn read_ref_atomic(&self) -> (r: Arc<T>)
        ensures
            (*r).inv(),
    {
        let (_, value) = self.ctrl.read_current();
        value
    }

    /// The control block this handle shares.
    pub fn control_block(&self) -> (r: &Arc<VarControlBlock<T>>)
        ensures
            (**r).spec_id() == self.spec_id(),
    {
        &self.ctrl
    }

    /// The identity, as an executable value.
    pub fn id(&self) -> (r: u64)
        ensures
            r == self.spec_id(),
    {
        self.ctrl.get_address()
    }
}

} // verus!
