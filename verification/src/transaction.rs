use vstd::prelude::*;
use std::sync::Arc;
use crate::control_block::ControlBlock;
use crate::log::keys_of;
use crate::log::lemma_keys_insert;
use crate::log::lemma_keys_update;
use crate::log::lemma_map_of_contains;
use crate::log::lemma_map_of_get;
use crate::log::lemma_map_of_insert_at;
use crate::log::lemma_map_of_update_at;
use crate::log::lemma_sorted_insert;
use crate::log::map_of;
use crate::log::strictly_sorted;
use crate::res::StmError;
use crate::res::StmResult;
use crate::runtime::Stm;
use crate::runtime::max_snapshot;
use crate::runtime::quiescent;
use crate::sync::arc_dup;
use crate::value::StmValue;
use crate::variable::TVar;
use crate::variable::VarControlBlock;

verus! {

/// A pending write: the variable it goes to and the payload to install.
#[verifier::reject_recursive_types(T)]
struct WEntry<T: StmValue> {
    var: Arc<VarControlBlock<T>>,
    value: Arc<T>,
}

/// A recorded read: the variable and the version of the stamp observed.
#[verifier::reject_recursive_types(T)]
struct REntry<T: StmValue> {
    var: Arc<VarControlBlock<T>>,
    version: u64,
}

/// How many times a stale snapshot is refreshed inside one read before the
/// attempt gives up and restarts.
const READ_TRIES: u32 = 64;

/// How many even-clock candidates validation examines before it reports a
/// conflict; giving up early only restarts the attempt, never admits a
/// stale value.
const VALIDATE_ROUNDS: u32 = 64;

/// How many times a commit re-attempts the clock gate before the attempt
/// restarts.
const COMMIT_TRIES: u32 = 64;

/// One attempt of an atomic computation: a snapshot of the global clock and
/// the private read and write logs, both kept as ordered maps from variable
/// identity to what was observed or what is to be installed.
#[verifier::reject_recursive_types(T)]
pub struct Transaction<T: StmValue> {
    stm: Stm,
    snapshot: usize,
    writes: Vec<WEntry<T>>,
    reads: Vec<REntry<T>>,
}

impl<T: StmValue> Transaction<T> {
    /// The write log as identity-payload pairs, in log order.
    pub closed spec fn wpairs(&self) -> Seq<(u64, T)> {
        self.writes@.map_values(|e: WEntry<T>| ((*e.var).spec_id(), *e.value))
    }

    /// The read log as identity-version pairs, in log order.
    pub closed spec fn rpairs(&self) -> Seq<(u64, u64)> {
        self.reads@.map_values(|e: REntry<T>| ((*e.var).spec_id(), e.version))
    }

    /// The write log as the map it denotes.
    pub open spec fn wmap(&self) -> Map<u64, T> {
        map_of(self.wpairs())
    }

    /// The read log as the map it denotes.
    pub open spec fn rmap(&self) -> Map<u64, u64> {
        map_of(self.rpairs())
    }

    /// The snapshot this attempt currently validates against.
    pub closed spec fn spec_snapshot(&self) -> int {
        self.snapshot as int
    }

    /// The shape every transaction keeps: both logs strictly ordered by
    /// variable identity, so a variable appears at most once per log and
    /// commit walks the write gates in a fixed order; the snapshot is a
    /// quiescent clock value; and every pending write is well-formed.
    pub closed spec fn wf(&self) -> bool {
        &&& strictly_sorted(keys_of(self.wpairs()))
        &&& strictly_sorted(keys_of(self.rpairs()))
        &&& quiescent(self.snapshot as int)
        &&& self.snapshot as int <= max_snapshot()
        &&& forall|i: int| 0 <= i < self.wpairs().len() ==> (#[trigger] self.wpairs()[i].1).inv()
    }

    /// A fresh attempt at a quiescent snapshot, with empty logs.
    pub(crate) fn new(stm: &Stm) -> (r: Transaction<T>)
        ensures
            r.wf(),
            r.wmap() == Map::<u64, T>::empty(),
            r.rmap() == Map::<u64, u64>::empty(),
    {
        let snapshot = stm.sample_even();
        let r = Transaction {
            stm: stm.clone(),
            snapshot,
            writes: Vec::new(),
            reads: Vec::new(),
        };
        proof {
            assert(r.wpairs() =~= Seq::<(u64, T)>::empty());
            assert(r.rpairs() =~= Seq::<(u64, u64)>::empty());
        }
        r
    }

    /// The index of the write-log entry for `id`, if the log holds one.
    fn find_write(&self, id: u64) -> (r: Option<usize>)
        requires
            self.wf(),
        ensures
            r matches Some(i) ==> {
                &&& i < self.wpairs().len()
                &&& self.wpairs()[i as int].0 == id
                &&& self.wmap().contains_key(id)
                &&& self.wmap()[id] == self.wpairs()[i as int].1
            },
            r is None ==> !self.wmap().contains_key(id),
    {
        let mut i: usize = 0;
        while i < self.writes.len()
            invariant
                self.wf(),
                i <= self.writes.len(),
                forall|j: int| 0 <= j < i ==> self.wpairs()[j].0 != id,
            decreases self.writes.len() - i,
        {
            if self.writes[i].var.get_address() == id {
                proof {
                    lemma_map_of_get(self.wpairs(), i as int);
                }
                return Some(i);
            }
            i = i + 1;
        }
        proof {
            lemma_map_of_contains(self.wpairs(), id);
        }
        None
    }

    /// Read `var` through this transaction.
    ///
    /// A variable the transaction has already written is answered from the
    /// write log without touching shared memory. Otherwise the committed
    /// value is observed, the snapshot is brought up to date — revalidating
    /// the whole read set whenever the clock has moved, so that no value
    /// inconsistent with one quiescent clock state is ever admitted — and
    /// the observation is recorded in the read log.
    ///
    /// A conflict discovered on the way reports `Fail`, and the enclosing
    /// run restarts the attempt; `Retry` is never produced here.
    pub fn read(&mut self, var: &TVar<T>) -> (r: StmResult<T>)
        requires
            old(self).wf(),
        ensures
            final (self).wf(),
            final (self).wmap() == old(self).wmap(),
            r matches Ok(v) ==> v.inv(),
            old(self).wmap().contains_key(var.spec_id()) ==> *final (self) == *old(self) && (
            r matches Ok(v) && v == old(self).wmap()[var.spec_id()]),
            !old(self).wmap().contains_key(var.spec_id()) ==> (r matches Ok(v) ==> exists|ver: u64|
                final (self).rmap() == old(self).rmap().insert(var.spec_id(), ver)),
            r matches Err(e) ==> e == StmError::Fail && final (self).rmap() == old(self).rmap(),
    {
        let id = var.id();
        match self.find_write(id) {
            Some(i) => {
                proof {
                    assert(self.wpairs()[i as int].1 == *self.writes@[i as int].value);
                }
                return Ok(self.writes[i].value.dup());
            },
            None => {},
        }
        let observed = var.control_block().read_current();
        let mut version = observed.0;
        let mut value = observed.1;
        let mut tries: u32 = READ_TRIES;
        loop
            invariant
                self.wf(),
                (*value).inv(),
                self.wpairs() == old(self).wpairs(),
                self.rpairs() == old(self).rpairs(),
                self.stm == old(self).stm,
                !old(self).wmap().contains_key(var.spec_id()),
            decreases tries,
        {
            let now = self.stm.clock();
            if now == self.snapshot {
                break ;
            }
            if tries == 0 {
                return Err(StmError::Fail);
            }
            tries = tries - 1;
            match self.validate() {
                None => {
                    return Err(StmError::Fail);
                },
                Some(fresh) => {
                    self.snapshot = fresh;
                    let again = var.control_block().read_current();
                    version = again.0;
                    value = again.1;
                },
            }
        }
        self.record_read(var, version);
        proof {
            let ghost witness: u64 = version;
            assert(self.rmap() == old(self).rmap().insert(var.spec_id(), witness));
        }
        Ok(value.dup())
    }

    /// Record in the read log that `var` was observed at `version`,
    /// replacing a previous record for the same variable.
    fn record_read(&mut self, var: &TVar<T>, version: u64)
        requires
            old(self).wf(),
        ensures
            final (self).wf(),
            final (self).wpairs() == old(self).wpairs(),
            final (self).stm == old(self).stm,
            final (self).spec_snapshot() == old(self).spec_snapshot(),
            final (self).rmap() == old(self).rmap().insert(var.spec_id(), version),
    {
        let id = var.id();
        let mut i: usize = 0;
        loop
            invariant
                old(self).wf(),
                *self == *old(self),
                i <= self.reads.len(),
                forall|j: int| 0 <= j < i ==> self.rpairs()[j].0 < id,
            ensures
                *self == *old(self),
                i <= self.reads.len(),
                forall|j: int| 0 <= j < i ==> self.rpairs()[j].0 < id,
                i < self.reads.len() ==> self.rpairs()[i as int].0 >= id,
            decreases self.reads.len() - i,
        {
            if i >= self.reads.len() {
                break ;
            }
            let cur = self.reads[i].var.get_address();
            proof {
                assert(self.rpairs()[i as int].0 == (*self.reads@[i as int].var).spec_id());
            }
            if cur >= id {
                break ;
            }
            i = i + 1;
        }
        let entry = REntry { var: arc_dup(var.control_block()), version };
        let ghost rp0 = self.rpairs();
        if i < self.reads.len() && self.reads[i].var.get_address() == id {
            self.reads.set(i, entry);
            proof {
                assert(self.rpairs() =~= rp0.update(i as int, (id, version)));
                lemma_keys_update(rp0, i as int, id, version);
                lemma_map_of_update_at(rp0, i as int, id, version);
            }
        } else {
            proof {
                assert forall|j: int| i <= j < rp0.len() implies rp0[j].0 > id by {
                    assert(keys_of(rp0)[j] == rp0[j].0);
                    assert(keys_of(rp0)[i as int] == rp0[i as int].0);
                    if j > i {
                        assert(keys_of(rp0)[i as int] < keys_of(rp0)[j]);
                    }
                }
            }
            self.reads.insert(i, entry);
            proof {
                assert(self.rpairs() =~= rp0.insert(i as int, (id, version)));
                lemma_keys_insert(rp0, i as int, id, version);
                lemma_sorted_insert(keys_of(rp0), i as int, id);
                lemma_map_of_insert_at(rp0, i as int, id, version);
            }
        }
    }

    /// Shadow `value` for `var` in the write log; the variable itself is
    /// untouched until commit. Always succeeds.
    pub fn write(&mut self, var: &TVar<T>, value: T) -> (r: StmResult<()>)
        requires
            old(self).wf(),
            value.inv(),
        ensures
            final (self).wf(),
            r == StmResult::<()>::Ok(()),
            final (self).wmap() == old(self).wmap().insert(var.spec_id(), value),
            final (self).rmap() == old(self).rmap(),
            final (self).spec_snapshot() == old(self).spec_snapshot(),
    {
        let id = var.id();
        let mut i: usize = 0;
        loop
            invariant
                old(self).wf(),
                *self == *old(self),
                i <= self.writes.len(),
                forall|j: int| 0 <= j < i ==> self.wpairs()[j].0 < id,
            ensures
                *self == *old(self),
                i <= self.writes.len(),
                forall|j: int| 0 <= j < i ==> self.wpairs()[j].0 < id,
                i < self.writes.len() ==> self.wpairs()[i as int].0 >= id,
            decreases self.writes.len() - i,
        {
            if i >= self.writes.len() {
                break ;
            }
            let cur = self.writes[i].var.get_address();
            proof {
                assert(self.wpairs()[i as int].0 == (*self.writes@[i as int].var).spec_id());
            }
            if cur >= id {
                break ;
            }
            i = i + 1;
        }
        let entry = WEntry { var: arc_dup(var.control_block()), value: Arc::new(value) };
        let ghost wp0 = self.wpairs();
        if i < self.writes.len() && self.writes[i].var.get_address() == id {
            self.writes.set(i, entry);
            proof {
                assert(self.wpairs() =~= wp0.update(i as int, (id, value)));
                lemma_keys_update(wp0, i as int, id, value);
                lemma_map_of_update_at(wp0, i as int, id, value);
            }
        } else {
            proof {
                assert forall|j: int| i <= j < wp0.len() implies wp0[j].0 > id by {
                    assert(keys_of(wp0)[j] == wp0[j].0);
                    assert(keys_of(wp0)[i as int] == wp0[i as int].0);
                    if j > i {
                        assert(keys_of(wp0)[i as int] < keys_of(wp0)[j]);
                    }
                }
            }
            self.writes.insert(i, entry);
            proof {
                assert(self.wpairs() =~= wp0.insert(i as int, (id, value)));
                lemma_keys_insert(wp0, i as int, id, value);
                lemma_sorted_insert(keys_of(wp0), i as int, id);
                lemma_map_of_insert_at(wp0, i as int, id, value);
            }
        }
        Ok(())
    }

    /// One pass over the read log: does every logged version still match
    /// the variable's committed version?
    fn check_reads(&self) -> bool {
        let mut i: usize = 0;
        while i < self.reads.len()
            decreases self.reads.len() - i,
        {
            if self.reads[i].var.current_version() != self.reads[i].version {
                return false;
            }
            i = i + 1;
        }
        true
    }

    /// Consistent-read validation: find a quiescent clock value under which
    /// every logged read still matches its variable's committed version,
    /// and return it as a fresh snapshot. `None` reports a conflict (or a
    /// clock that would not settle), on which the attempt must restart.
    pub(crate) fn validate(&self) -> (r: Option<usize>)
        ensures
            r matches Some(fresh) ==> quiescent(fresh as int) && fresh as int <= max_snapshot(),
    {
        let mut rounds: u32 = VALIDATE_ROUNDS;
        loop
            decreases rounds,
        {
            let time = self.stm.clock();
            if time % 2 == 0 && time <= usize::MAX - 2 {
                if !self.check_reads() {
                    return None;
                }
                if self.stm.clock() == time {
                    return Some(time);
                }
            }
            if rounds == 0 {
                return None;
            }
            rounds = rounds - 1;
        }
    }

    /// Attempt to publish the write log.
    ///
    /// A transaction that wrote nothing commits for free. Otherwise the
    /// clock gate is taken by compare-and-swap from the snapshot — retrying
    /// through revalidation while other commits go by — the read log is
    /// checked once more inside the critical section, every pending write is installed
    /// in identity order with its waiters notified, and the clock is
    /// released two past the snapshot. An abort inside the critical section
    /// restores the very clock value acquire started from.
    pub(crate) fn commit(&mut self) -> (r: bool)
        requires
            old(self).wf(),
        ensures
            final (self).wf(),
            old(self).wmap().is_empty() ==> r == true,
            final (self).wmap() == old(self).wmap(),
            final (self).rmap() == old(self).rmap(),
            r == true ==> quiescent(final (self).spec_snapshot())
                && final (self).spec_snapshot() <= max_snapshot(),
    {
        if self.writes.len() == 0 {
            proof {
                assert(self.wpairs() =~= Seq::<(u64, T)>::empty());
            }
            return true;
        }
        proof {
            lemma_map_of_get(self.wpairs(), 0);
            assert(!old(self).wmap().is_empty());
        }
        let mut tries: u32 = COMMIT_TRIES;
        let mut acquired_gate: bool = false;
        loop
            invariant
                self.wf(),
                self.wpairs() == old(self).wpairs(),
                self.rpairs() == old(self).rpairs(),
                self.stm == old(self).stm,
                !old(self).wmap().is_empty(),
            decreases tries,
        {
            match self.stm.try_acquire(self.snapshot) {
                Some(_) => {
                    acquired_gate = true;
                    break ;
                },
                None => {},
            }
            if tries == 0 {
                break ;
            }
            tries = tries - 1;
            match self.validate() {
                None => {
                    return false;
                },
                Some(fresh) => {
                    self.snapshot = fresh;
                },
            }
        }
        if !acquired_gate {
            return false;
        }
        let mut i: usize = 0;
        while i < self.reads.len()
            invariant
                self.wf(),
                self.wpairs() == old(self).wpairs(),
                self.rpairs() == old(self).rpairs(),
                self.stm == old(self).stm,
                !old(self).wmap().is_empty(),
            decreases self.reads.len() - i,
        {
            if self.reads[i].var.current_version() != self.reads[i].version {
                self.stm.release_abort(self.snapshot);
                return false;
            }
            i = i + 1;
        }
        let mut i: usize = 0;
        while i < self.writes.len()
            invariant
                self.wf(),
                self.wpairs() == old(self).wpairs(),
                self.rpairs() == old(self).rpairs(),
                self.stm == old(self).stm,
            decreases self.writes.len() - i,
        {
            proof {
                assert(self.wpairs()[i as int].1 == *self.writes@[i as int].value);
            }
            self.writes[i].var.install(&self.writes[i].value);
            i = i + 1;
        }
        self.stm.release_commit(self.snapshot);
        true
    }

    /// Throw the attempt away: empty both logs and sample a fresh quiescent
    /// snapshot for the next run of the closure.
    pub(crate) fn clear(&mut self)
        ensures
            final (self).wf(),
            final (self).wmap() == Map::<u64, T>::empty(),
            final (self).rmap() == Map::<u64, u64>::empty(),
    {
        self.writes = Vec::new();
        self.reads = Vec::new();
        self.snapshot = self.stm.sample_even();
        proof {
            assert(self.wpairs() =~= Seq::<(u64, T)>::empty());
            assert(self.rpairs() =~= Seq::<(u64, u64)>::empty());
        }
    }

    /// The blocking-retry protocol: subscribe a fresh wait block to every
    /// variable in the read set, revalidate — a write that slipped in
    /// between would otherwise be a lost wakeup — and only then sleep until
    /// a committer that touches one of those variables signals the block.
    ///
    /// With an empty read set no write could ever wake the sleeper, so the
    /// request degrades to an immediate restart.
    pub(crate) fn block_on_reads(&self) {
        if self.reads.len() == 0 {
            return ;
        }
        let block = Arc::new(ControlBlock::new());
        let key = self.stm.fresh_id();
        let mut i: usize = 0;
        while i < self.reads.len()
            decreases self.reads.len() - i,
        {
            self.reads[i].var.subscribe(key, &block);
            i = i + 1;
        }
        match self.validate() {
            None => {},
            Some(_) => {
                block.wait();
            },
        }
        let mut i: usize = 0;
        while i < self.reads.len()
            decreases self.reads.len() - i,
        {
            self.reads[i].var.unsubscribe(key);
            i = i + 1;
        }
    }

    /// Whether `v` is a value some run of the closure can answer together
    /// with the transaction state it produced.
    pub open spec fn produced_by<R, F: Fn(Transaction<T>) -> (Transaction<T>, StmResult<R>)>(
        f: F,
        v: R,
    ) -> bool {
        exists|t1: Transaction<T>, t2: Transaction<T>|
            call_ensures(f, (t1,), (t2, StmResult::<R>::Ok(v)))
    }

    /// Run `f` atomically and return what its successful attempt returned.
    ///
    /// The closure is run against a fresh transaction; when it returns a
    /// value the attempt tries to commit, a conflict restarts it, and an
    /// explicit retry parks the thread until a variable it read changes.
    /// `None` is returned only when an astronomically large budget of
    /// restarts is exhausted; a closure that can only answer a value
    /// without pending writes never conflicts, so for it success is owed
    /// outright.
    pub fn run<R, F: Fn(Transaction<T>) -> (Transaction<T>, StmResult<R>)>(stm: &Stm, f: F) -> (r:
        Option<R>)
        requires
            forall|t: Transaction<T>| t.wf() ==> call_requires(f, (t,)),
            forall|t: Transaction<T>, out: (Transaction<T>, StmResult<R>)|
                call_ensures(f, (t,), out) ==> out.0.wf(),
        ensures
            r matches Some(v) ==> Self::produced_by(f, v),
            (forall|t: Transaction<T>, out: (Transaction<T>, StmResult<R>)|
                t.wmap().is_empty() && call_ensures(f, (t,), out) ==> (out.1 matches Ok(_))
                    && out.0.wmap().is_empty()) ==> r is Some,
    {
        let mut tx = Transaction::<T>::new(stm);
        let mut fuel: u64 = u64::MAX;
        loop
            invariant
                tx.wf(),
                tx.wmap().is_empty(),
                forall|t: Transaction<T>| t.wf() ==> call_requires(f, (t,)),
                forall|t: Transaction<T>, out: (Transaction<T>, StmResult<R>)|
                    call_ensures(f, (t,), out) ==> out.0.wf(),
            decreases fuel,
        {
            let ghost entering = tx;
            let (mut after, outcome) = f(tx);
            let ghost produced = after;
            let ghost out0 = outcome;
            match outcome {
                Ok(v) => {
                    if after.commit() {
                        proof {
                            assert(call_ensures(f, (entering,), (produced, out0)));
                            assert(out0 == StmResult::<R>::Ok(v));
                            assert(call_ensures(f, (entering,), (produced, StmResult::<R>::Ok(v))));
                            assert(Self::produced_by(f, v));
                        }
                        return Some(v);
                    }
                },
                Err(StmError::Fail) => {},
                Err(StmError::Retry) => {
                    after.block_on_reads();
                },
            }
            after.clear();
            tx = after;
            if fuel == 0 {
                return None;
            }
            fuel = fuel - 1;
        }
    }
}

/// Transactional access through the handle itself, as a convenience over
/// the transaction's own methods.
impl<T: StmValue> TVar<T> {
    /// Read this variable through the given transaction; see
    /// [`Transaction::read`] for the full contract.
    pub fn read(&self, transaction: &mut Transaction<T>) -> (r: StmResult<T>)
        requires
            old(transaction).wf(),
        ensures
            final (transaction).wf(),
            final (transaction).wmap() == old(transaction).wmap(),
            r matches Ok(v) ==> v.inv(),
            old(transaction).wmap().contains_key(self.spec_id()) ==> *final (transaction) == *old(
                transaction,
            ) && (r matches Ok(v) && v == old(transaction).wmap()[self.spec_id()]),
            !old(transaction).wmap().contains_key(self.spec_id()) ==> (r matches Ok(v)
                ==> exists|ver: u64|
                final (transaction).rmap() == old(transaction).rmap().insert(
                    self.spec_id(),
                    ver,
                )),
            r matches Err(e) ==> e == StmError::Fail && final (transaction).rmap() == old(
                transaction,
            ).rmap(),
    {
        transaction.read(self)
    }

    /// Write this variable through the given transaction; see
    /// [`Transaction::write`] for the full contract.
    pub fn write(&self, transaction: &mut Transaction<T>, value: T) -> (r: StmResult<()>)
        requires
            old(transaction).wf(),
            value.inv(),
        ensures
            final (transaction).wf(),
            r == StmResult::<()>::Ok(()),
            final (transaction).wmap() == old(transaction).wmap().insert(self.spec_id(), value),
            final (transaction).rmap() == old(transaction).rmap(),
    {
        transaction.write(self, value)
    }
}

} // verus!
