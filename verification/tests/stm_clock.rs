use seqstm::Stm;
use seqstm::TVar;
use seqstm::Transaction;
use seqstm::atomically;

#[test]
fn clock_starts_quiescent_at_zero() {
    let stm = Stm::new();
    assert_eq!(stm.clock(), 0);
}

#[test]
fn a_writing_commit_advances_the_clock_by_two() {
    let stm = Stm::new();
    let v = TVar::new(&stm, 0i32);
    let before = stm.clock();
    atomically(&stm, |mut tx: Transaction<i32>| {
        let r = v.write(&mut tx, 1);
        (tx, r)
    })
    .unwrap();
    assert_eq!(stm.clock(), before + 2);
}

#[test]
fn a_read_only_commit_leaves_the_clock_alone() {
    let stm = Stm::new();
    let v = TVar::new(&stm, 0i32);
    atomically(&stm, |mut tx: Transaction<i32>| {
        let r = v.write(&mut tx, 1);
        (tx, r)
    })
    .unwrap();
    let before = stm.clock();
    atomically(&stm, |mut tx: Transaction<i32>| {
        let r = v.read(&mut tx);
        (tx, r)
    })
    .unwrap();
    assert_eq!(stm.clock(), before);
}

#[test]
fn three_commits_make_three_adjacent_even_values() {
    let stm = Stm::new();
    let a = TVar::new(&stm, 0i32);
    let b = TVar::new(&stm, 0i32);
    let c = TVar::new(&stm, 0i32);
    let mut observed = vec![stm.clock()];
    for var in [&a, &b, &c] {
        atomically(&stm, |mut tx: Transaction<i32>| {
            let r = var.write(&mut tx, 1);
            (tx, r)
        })
        .unwrap();
        observed.push(stm.clock());
    }
    assert_eq!(observed, vec![0, 2, 4, 6]);
    for pair in observed.windows(2) {
        assert!(pair[0] <= pair[1]);
        assert_eq!(pair[1] - pair[0], 2);
        assert_eq!(pair[1] % 2, 0);
    }
}

#[test]
fn observed_clock_values_never_decrease() {
    let stm = Stm::new();
    let v = TVar::new(&stm, 0i32);
    let mut last = stm.clock();
    for i in 0..5i32 {
        atomically(&stm, |mut tx: Transaction<i32>| {
            let r = v.write(&mut tx, i);
            (tx, r)
        })
        .unwrap();
        let now = stm.clock();
        assert!(now >= last);
        last = now;
    }
}

#[test]
fn domains_have_independent_clocks() {
    let first = Stm::new();
    let second = Stm::new();
    let v = TVar::new(&first, 0i32);
    atomically(&first, |mut tx: Transaction<i32>| {
        let w = v.write(&mut tx, 1);
        (tx, w)
    })
    .unwrap();
    assert_eq!(first.clock(), 2);
    assert_eq!(second.clock(), 0);
}
