use seqstm::StmError;
use seqstm::StmResult;
use seqstm::Stm;
use seqstm::TVar;
use seqstm::Transaction;
use seqstm::atomically;
use seqstm::retry;
use std::cell::Cell;

#[test]
fn new_var_peeks_initial() {
    let stm = Stm::new();
    let v = TVar::new(&stm, 7i32);
    assert_eq!(v.read_atomic(), 7);
}

#[test]
fn write_then_read_in_one_transaction() {
    let stm = Stm::new();
    let v = TVar::new(&stm, 0i32);
    let got = atomically(&stm, |mut tx: Transaction<i32>| {
        let w = v.write(&mut tx, 42);
        assert!(w.is_ok());
        let r = v.read(&mut tx);
        (tx, r)
    });
    assert_eq!(got, Some(42));
    assert_eq!(v.read_atomic(), 42);
}

#[test]
fn sequential_commits_are_visible() {
    let stm = Stm::new();
    let v = TVar::new(&stm, 0i32);
    atomically(&stm, |mut tx: Transaction<i32>| {
        let r = v.write(&mut tx, 10);
        (tx, r)
    })
    .unwrap();
    let seen = atomically(&stm, |mut tx: Transaction<i32>| {
        let r = v.read(&mut tx);
        match r {
            Ok(x) => {
                let w = v.write(&mut tx, x + 10);
                match w {
                    Ok(()) => (tx, Ok(x)),
                    Err(e) => (tx, Err(e)),
                }
            }
            Err(e) => (tx, Err(e)),
        }
    });
    assert_eq!(seen, Some(10));
    assert_eq!(v.read_atomic(), 20);
}

#[test]
fn later_write_overwrites_earlier_one() {
    let stm = Stm::new();
    let v = TVar::new(&stm, 0i32);
    let got = atomically(&stm, |mut tx: Transaction<i32>| {
        let _ = v.write(&mut tx, 1);
        let _ = v.write(&mut tx, 2);
        let r = v.read(&mut tx);
        (tx, r)
    });
    assert_eq!(got, Some(2));
    assert_eq!(v.read_atomic(), 2);
}

#[test]
fn read_only_transaction_returns_committed_value() {
    let stm = Stm::new();
    let v = TVar::new(&stm, 5i32);
    let got = atomically(&stm, |mut tx: Transaction<i32>| {
        let r = v.read(&mut tx);
        (tx, r)
    });
    assert_eq!(got, Some(5));
}

#[test]
fn fail_restarts_the_attempt() {
    let stm = Stm::new();
    let v = TVar::new(&stm, 9i32);
    let attempts = Cell::new(0u32);
    let got = atomically(&stm, |mut tx: Transaction<i32>| {
        attempts.set(attempts.get() + 1);
        if attempts.get() == 1 {
            let failed: StmResult<i32> = Err(StmError::Fail);
            (tx, failed)
        } else {
            let r = v.read(&mut tx);
            (tx, r)
        }
    });
    assert_eq!(got, Some(9));
    assert_eq!(attempts.get(), 2);
}

#[test]
fn retry_is_the_retry_signal() {
    let r: StmResult<i32> = retry();
    assert!(matches!(r, Err(StmError::Retry)));
}

#[test]
fn atomically_returns_the_closure_value() {
    let stm = Stm::new();
    let got = atomically(&stm, |tx: Transaction<i32>| (tx, Ok(123i32)));
    assert_eq!(got, Some(123));
}

#[test]
fn cloned_handle_reads_the_same_variable() {
    let stm = Stm::new();
    let v = TVar::new(&stm, 3i32);
    let w = v.clone();
    atomically(&stm, |mut tx: Transaction<i32>| {
        let r = v.write(&mut tx, 4);
        (tx, r)
    })
    .unwrap();
    assert_eq!(w.read_atomic(), 4);
    assert_eq!(w.id(), v.id());
}

#[test]
fn distinct_variables_have_distinct_identities() {
    let stm = Stm::new();
    let a = TVar::new(&stm, 0i32);
    let b = TVar::new(&stm, 0i32);
    assert_ne!(a.id(), b.id());
}

#[test]
fn read_ref_atomic_shares_the_committed_value() {
    let stm = Stm::new();
    let v = TVar::new(&stm, 11i32);
    let shared = v.read_ref_atomic();
    assert_eq!(*shared, 11);
}

#[test]
fn retry_with_an_empty_read_set_restarts_at_once() {
    let stm = Stm::new();
    let v = TVar::new(&stm, 8i32);
    let attempts = Cell::new(0u32);
    let got = atomically(&stm, |mut tx: Transaction<i32>| {
        attempts.set(attempts.get() + 1);
        if attempts.get() == 1 {
            let asked: StmResult<i32> = retry();
            (tx, asked)
        } else {
            let r = v.read(&mut tx);
            (tx, r)
        }
    });
    assert_eq!(got, Some(8));
    assert_eq!(attempts.get(), 2);
}

#[test]
fn extreme_values_round_trip() {
    let stm = Stm::new();
    let v = TVar::new(&stm, 0i32);
    for value in [i32::MAX, i32::MIN, -1, 0] {
        atomically(&stm, |mut tx: Transaction<i32>| {
            let w = v.write(&mut tx, value);
            (tx, w)
        })
        .unwrap();
        assert_eq!(v.read_atomic(), value);
    }
}
