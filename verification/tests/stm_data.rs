use seqstm::Bst;
use seqstm::Ll;
use seqstm::Stm;
use seqstm::StmResult;
use seqstm::TVar;
use seqstm::Transaction;
use seqstm::atomically;

#[test]
fn bst_counts_distinct_insertions() {
    let mut t = Bst::new();
    assert_eq!(t.size(), 0);
    t.insert(5);
    t.insert(2);
    t.insert(8);
    assert_eq!(t.size(), 3);
    t.insert(2);
    assert_eq!(t.size(), 3);
    t.insert(-4);
    assert_eq!(t.size(), 4);
}

#[test]
fn ll_counts_distinct_insertions() {
    let mut l = Ll::new();
    assert_eq!(l.len(), 0);
    l.insert(3);
    l.insert(1);
    l.insert(9);
    assert_eq!(l.len(), 3);
    l.insert(9);
    assert_eq!(l.len(), 3);
    l.insert(4);
    assert_eq!(l.len(), 4);
}

#[test]
fn tree_in_a_variable_keeps_every_insertion() {
    let stm = Stm::new();
    let mut seed = Bst::new();
    seed.insert(1000);
    let var = TVar::new(&stm, seed);
    for i in 0..10i32 {
        atomically(&stm, |mut tx: Transaction<Bst>| {
            let r = var.read(&mut tx);
            match r {
                Ok(mut t) => {
                    t.insert(i);
                    let w = var.write(&mut tx, t);
                    (tx, w)
                }
                Err(e) => {
                    let failed: StmResult<()> = Err(e);
                    (tx, failed)
                }
            }
        })
        .unwrap();
    }
    let mut fin = var.read_atomic();
    assert_eq!(fin.size(), 11);
}

#[test]
fn list_in_a_variable_collects_insertions() {
    let stm = Stm::new();
    let var = TVar::new(&stm, Ll::new());
    for i in [4i32, 2, 9, 2, 7] {
        atomically(&stm, |mut tx: Transaction<Ll>| {
            let r = var.read(&mut tx);
            match r {
                Ok(mut l) => {
                    l.insert(i);
                    let w = var.write(&mut tx, l);
                    (tx, w)
                }
                Err(e) => {
                    let failed: StmResult<()> = Err(e);
                    (tx, failed)
                }
            }
        })
        .unwrap();
    }
    let mut fin = var.read_atomic();
    assert_eq!(fin.len(), 4);
}

#[test]
fn two_variables_commit_together() {
    let stm = Stm::new();
    let a = TVar::new(&stm, 0i32);
    let b = TVar::new(&stm, 0i32);
    let before = stm.clock();
    atomically(&stm, |mut tx: Transaction<i32>| {
        let ra = a.write(&mut tx, 1);
        assert!(ra.is_ok());
        let rb = b.write(&mut tx, 2);
        (tx, rb)
    })
    .unwrap();
    assert_eq!(a.read_atomic(), 1);
    assert_eq!(b.read_atomic(), 2);
    assert_eq!(stm.clock(), before + 2);
}
