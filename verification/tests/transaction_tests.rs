use std::collections::HashMap;

use nomos_chain::header::{Id32, TxHash};
use nomos_chain::transaction_manager::{cleanup_hashes, get_transactions, missing_hashes, TransactionError};

/// A transaction of the tests: its hash and a payload.
#[derive(Clone, Debug, PartialEq, Eq)]
struct Tx {
    hash: TxHash,
    payload: u32,
}

fn create_test_tx(id: u32) -> Tx {
    Tx { hash: Id32::repeat(id as u8), payload: id }
}

/// Looks the requested transactions up in the mempool, then the missing
/// ones in the storage, and orders them as requested.
fn transactions_for(requested: &[TxHash], mempool: &[Tx], storage: &[Tx]) -> Result<Vec<Tx>, TransactionError> {
    let requested = requested.to_vec();
    let mempool_txs: Vec<Tx> = mempool.iter().filter(|t| requested.contains(&t.hash)).cloned().collect();
    let mempool_hashes: Vec<TxHash> = mempool_txs.iter().map(|t| t.hash).collect();
    let storage_needed = missing_hashes(&requested, &mempool_hashes);
    let storage_txs: Vec<Tx> = storage.iter().filter(|t| storage_needed.contains(&t.hash)).cloned().collect();
    let found: Vec<Tx> = mempool_txs.into_iter().chain(storage_txs).collect();
    let found_hashes: Vec<TxHash> = found.iter().map(|t| t.hash).collect();
    get_transactions(&requested, &found_hashes, found)
}

#[test]
fn test_order_preserved_with_mixed_sources() {
    let tx1 = create_test_tx(1);
    let tx2 = create_test_tx(2);
    let tx3 = create_test_tx(3);
    let tx4 = create_test_tx(4);
    let tx5 = create_test_tx(5);
    let storage = vec![tx1.clone(), tx3.clone(), tx5.clone()];
    let mempool = vec![tx2.clone(), tx4.clone()];
    let request_hashes = vec![tx1.hash, tx2.hash, tx3.hash, tx4.hash, tx5.hash];
    let result_txs = transactions_for(&request_hashes, &mempool, &storage).unwrap();
    assert_eq!(result_txs.len(), 5);
    assert_eq!(result_txs[0], tx1); // from storage
    assert_eq!(result_txs[1], tx2); // from mempool
    assert_eq!(result_txs[2], tx3); // from storage
    assert_eq!(result_txs[3], tx4); // from mempool
    assert_eq!(result_txs[4], tx5); // from storage
}

#[test]
fn test_cleanup_transactions_from_immutable_blocks() {
    let tx1 = create_test_tx(1);
    let tx2 = create_test_tx(2);
    let tx3 = create_test_tx(3);
    let mut storage: HashMap<TxHash, Tx> =
        [tx1.clone(), tx2.clone(), tx3.clone()].into_iter().map(|t| (t.hash, t)).collect();
    // The immutable block holds tx1 and tx2.
    let blocks = vec![Some(vec![tx1.hash, tx2.hash])];
    if let Some(hashes) = cleanup_hashes(&blocks) {
        for h in hashes {
            storage.remove(&h);
        }
    }
    assert!(storage.get(&tx1.hash).is_none(), "tx1 should be removed as it was in the immutable block");
    assert!(storage.get(&tx2.hash).is_none(), "tx2 should be removed as it was in the immutable block");
    assert!(storage.get(&tx3.hash).is_some(), "tx3 should remain as it wasn't in the immutable block");
}

#[test]
fn cleanup_skips_missing_blocks_and_empty_batches() {
    let a = Id32::repeat(1);
    let b = Id32::repeat(2);
    let c = Id32::repeat(3);
    assert_eq!(cleanup_hashes(&vec![]), None);
    assert_eq!(cleanup_hashes(&vec![None, Some(vec![])]), None);
    assert_eq!(
        cleanup_hashes(&vec![Some(vec![a, b]), None, Some(vec![c])]),
        Some(vec![a, b, c])
    );
}

#[test]
fn missing_transaction_is_reported() {
    let tx1 = create_test_tx(1);
    let tx2 = create_test_tx(2);
    let result = transactions_for(&[tx1.hash, tx2.hash], &[tx1.clone()], &[]);
    assert_eq!(result, Err(TransactionError::NotFound(tx2.hash)));
}

#[test]
fn transaction_requested_twice_is_not_served_twice() {
    let tx1 = create_test_tx(1);
    let result = transactions_for(&[tx1.hash, tx1.hash], &[tx1.clone()], &[]);
    assert_eq!(result, Err(TransactionError::NotFound(tx1.hash)));
}

#[test]
fn later_duplicate_wins() {
    let h = Id32::repeat(7);
    let first = Tx { hash: h, payload: 1 };
    let second = Tx { hash: h, payload: 2 };
    let result = get_transactions(&vec![h], &vec![h, h], vec![first, second.clone()]).unwrap();
    assert_eq!(result, vec![second]);
}

#[test]
fn missing_hashes_keep_request_order() {
    let a = Id32::repeat(1);
    let b = Id32::repeat(2);
    let c = Id32::repeat(3);
    assert_eq!(missing_hashes(&vec![c, a, b], &vec![a]), vec![c, b]);
    assert_eq!(missing_hashes(&vec![], &vec![a]), Vec::<TxHash>::new());
}
