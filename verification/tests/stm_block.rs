use seqstm::ControlBlock;
use seqstm::Stm;
use seqstm::TVar;
use seqstm::Transaction;
use seqstm::atomically;
use std::sync::Arc;

#[test]
fn a_signal_before_the_sleep_still_releases_the_waiter() {
    let block = ControlBlock::new();
    block.set_changed();
    block.wait();
}

#[test]
fn set_changed_is_idempotent() {
    let block = ControlBlock::new();
    block.set_changed();
    block.set_changed();
    block.wait();
    block.wait();
}

#[test]
fn a_committing_write_wakes_a_subscriber() {
    let stm = Stm::new();
    let v = TVar::new(&stm, 0i32);
    let block = Arc::new(ControlBlock::new());
    v.control_block().subscribe(77, &block);
    atomically(&stm, |mut tx: Transaction<i32>| {
        let r = v.write(&mut tx, 1);
        (tx, r)
    })
    .unwrap();
    block.wait();
}

#[test]
fn unsubscribe_after_a_wakeup_is_harmless() {
    let stm = Stm::new();
    let v = TVar::new(&stm, 0i32);
    let block = Arc::new(ControlBlock::new());
    v.control_block().subscribe(5, &block);
    atomically(&stm, |mut tx: Transaction<i32>| {
        let r = v.write(&mut tx, 1);
        (tx, r)
    })
    .unwrap();
    v.control_block().unsubscribe(5);
    block.wait();
}
