use comoona::{PoolError, Transaction, TransactionPool};

fn tx(id: u8, fee: u64) -> Transaction {
    Transaction {
        id: [id; 32],
        sender: [id; 32],
        receiver: [id.wrapping_add(1); 32],
        amount: 100,
        timestamp: 0,
        signature: [0; 64],
        fee,
    }
}

fn fees(v: &[Transaction]) -> Vec<u64> {
    v.iter().map(|t| t.fee).collect()
}

#[test]
fn scenario_admission_and_eviction() {
    let mut pool = TransactionPool::new(2);
    assert_eq!(pool.add_transaction(tx(1, 5)), Ok(()));
    assert_eq!(pool.add_transaction(tx(2, 10)), Ok(()));
    assert_eq!(pool.add_transaction(tx(3, 3)), Err(PoolError::PoolFull));
    assert_eq!(pool.add_transaction(tx(4, 20)), Ok(()));
    assert_eq!(pool.pending_count(), 2);
    assert!(pool.is_processed(&[1; 32]));
    assert_eq!(fees(&pool.get_best_transactions(10)), vec![20, 10]);
    assert_eq!(pool.add_transaction(tx(1, 5)), Err(PoolError::AlreadyProcessed));
    assert_eq!(pool.add_transaction(tx(1, 100)), Err(PoolError::AlreadyProcessed));
}

#[test]
fn scenario_best_one_is_highest_fee() {
    let mut pool = TransactionPool::new(5);
    assert_eq!(pool.add_transaction(tx(1, 10)), Ok(()));
    assert_eq!(pool.add_transaction(tx(2, 20)), Ok(()));
    let best = pool.get_best_transactions(1);
    assert_eq!(best.len(), 1);
    assert_eq!(best[0].id, [2; 32]);
    assert_eq!(best[0].fee, 20);
}

#[test]
fn size_never_exceeds_capacity() {
    let mut pool = TransactionPool::new(3);
    for i in 0..40u8 {
        let fee = (i as u64 * 37) % 11;
        let _ = pool.add_transaction(tx(i, fee));
        assert!(pool.pending_count() <= pool.max_pool_size());
    }
    assert_eq!(pool.pending_count(), 3);
}

#[test]
fn best_transactions_descend_by_fee() {
    let mut pool = TransactionPool::new(10);
    for (i, fee) in [7u64, 3, 9, 1, 7, 4].iter().enumerate() {
        assert_eq!(pool.add_transaction(tx(i as u8, *fee)), Ok(()));
    }
    assert_eq!(fees(&pool.get_best_transactions(10)), vec![9, 7, 7, 4, 3, 1]);
    assert_eq!(fees(&pool.get_best_transactions(3)), vec![9, 7, 7]);
    pool.remove_transaction(&[2; 32]);
    assert_eq!(fees(&pool.get_best_transactions(10)), vec![7, 7, 4, 3, 1]);
}

#[test]
fn equal_fees_keep_arrival_order() {
    let mut pool = TransactionPool::new(10);
    assert_eq!(pool.add_transaction(tx(1, 7)), Ok(()));
    assert_eq!(pool.add_transaction(tx(2, 7)), Ok(()));
    let best = pool.get_best_transactions(2);
    assert_eq!(best[0].id, [2; 32]);
    assert_eq!(best[1].id, [1; 32]);
}

#[test]
fn removed_id_is_refused_forever() {
    let mut pool = TransactionPool::new(4);
    assert_eq!(pool.add_transaction(tx(9, 8)), Ok(()));
    pool.remove_transaction(&[9; 32]);
    assert_eq!(pool.pending_count(), 0);
    assert_eq!(pool.add_transaction(tx(9, 8)), Err(PoolError::AlreadyProcessed));
    assert_eq!(pool.add_transaction(tx(9, 50)), Err(PoolError::AlreadyProcessed));
}

#[test]
fn removing_unseen_id_still_blocks_it() {
    let mut pool = TransactionPool::new(4);
    pool.remove_transaction(&[6; 32]);
    assert!(pool.is_processed(&[6; 32]));
    assert_eq!(pool.add_transaction(tx(6, 1)), Err(PoolError::AlreadyProcessed));
    pool.remove_transaction(&[6; 32]);
    assert!(pool.is_processed(&[6; 32]));
}

#[test]
fn pending_duplicate_is_refused() {
    let mut pool = TransactionPool::new(4);
    assert_eq!(pool.add_transaction(tx(3, 8)), Ok(()));
    assert_eq!(pool.add_transaction(tx(3, 9)), Err(PoolError::AlreadyProcessed));
    assert_eq!(pool.pending_count(), 1);
    assert!(!pool.is_processed(&[3; 32]));
}

#[test]
fn equal_fee_does_not_evict() {
    let mut pool = TransactionPool::new(1);
    assert_eq!(pool.add_transaction(tx(1, 5)), Ok(()));
    assert_eq!(pool.add_transaction(tx(2, 5)), Err(PoolError::PoolFull));
    assert!(!pool.is_processed(&[1; 32]));
    assert_eq!(pool.add_transaction(tx(2, 6)), Ok(()));
    assert!(pool.is_processed(&[1; 32]));
}

#[test]
fn zero_capacity_pool_admits_nothing() {
    let mut pool = TransactionPool::new(0);
    assert_eq!(pool.add_transaction(tx(1, 1000)), Err(PoolError::PoolFull));
    assert_eq!(pool.pending_count(), 0);
}

#[test]
fn best_of_empty_pool_is_empty() {
    let pool = TransactionPool::new(3);
    assert!(pool.get_best_transactions(5).is_empty());
    let mut pool = TransactionPool::new(3);
    assert_eq!(pool.add_transaction(tx(1, 1)), Ok(()));
    assert!(pool.get_best_transactions(0).is_empty());
}

#[test]
fn full_pool_refuses_cheap_pending_duplicate_as_full() {
    let mut pool = TransactionPool::new(1);
    assert_eq!(pool.add_transaction(tx(1, 5)), Ok(()));
    assert_eq!(pool.add_transaction(tx(1, 3)), Err(PoolError::PoolFull));
    assert_eq!(pool.add_transaction(tx(1, 5)), Err(PoolError::PoolFull));
    assert_eq!(pool.pending_count(), 1);
    assert!(!pool.is_processed(&[1; 32]));
}

#[test]
fn full_pool_refuses_outbidding_pending_duplicate() {
    let mut pool = TransactionPool::new(1);
    assert_eq!(pool.add_transaction(tx(1, 5)), Ok(()));
    assert_eq!(pool.add_transaction(tx(1, 9)), Err(PoolError::AlreadyProcessed));
    assert_eq!(pool.pending_count(), 1);
    assert!(!pool.is_processed(&[1; 32]));
    assert_eq!(fees(&pool.get_best_transactions(1)), vec![5]);
}
