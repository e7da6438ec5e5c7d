use block_api::api::{block_by_number, block_pagination, block_transactions, ApiBlockData};
use block_api::cache::BlockDetailsCache;
use block_api::store::StorageEngine;
use block_api::types::{
    BlockDetails, BlockNumber, PaginationDirection, PaginationQuery, Transaction, TxHash,
};

fn filled_store() -> StorageEngine {
    let mut store = StorageEngine::new();
    let mut n: u32 = 1;
    while n <= 5 {
        store.push_block(BlockDetails {
            block_number: n,
            new_state_root: 100 + n as u64,
            created_at: 1000 * n as u64,
            is_committed: true,
            is_verified: n <= 3,
        });
        n += 1;
    }
    store.push_transaction(Transaction { tx_hash: TxHash(301), block_number: 3, created_at: 3001 });
    store.push_transaction(Transaction { tx_hash: TxHash(302), block_number: 3, created_at: 3002 });
    store.push_transaction(Transaction { tx_hash: TxHash(303), block_number: 3, created_at: 3003 });
    store.push_transaction(Transaction { tx_hash: TxHash(401), block_number: 4, created_at: 4001 });
    store
}

#[test]
fn v02_test_block_scope() {
    let mut store = filled_store();
    let mut data = ApiBlockData::new(BlockDetailsCache::new(10));

    let query = PaginationQuery {
        from: BlockNumber(1),
        limit: 3,
        direction: PaginationDirection::Newer,
    };
    let expected_blocks = block_pagination(&data, &mut store, query).unwrap();

    let block = block_by_number(&mut data, &mut store, "2").unwrap().unwrap();
    assert_eq!(block, expected_blocks.list[0]);

    let paginated = block_pagination(&data, &mut store, query).unwrap();
    assert_eq!(paginated.list, expected_blocks.list);
    assert_eq!(paginated.count, expected_blocks.count);
    assert_eq!(paginated.limit, expected_blocks.limit);
    assert_eq!(paginated.direction, expected_blocks.direction);
    assert_eq!(paginated.from, expected_blocks.from);

    let block_number = BlockNumber(3);
    let expected_txs: Vec<Transaction> = store
        .txs
        .iter()
        .filter(|t| t.block_number == block_number.0)
        .cloned()
        .collect();
    assert!(expected_txs.len() >= 3);
    let tx_hash = expected_txs.first().unwrap().tx_hash;

    let query = PaginationQuery {
        from: tx_hash,
        limit: 2,
        direction: PaginationDirection::Older,
    };
    let paginated = block_transactions(&data, &mut store, "3", query).unwrap();
    assert_eq!(paginated.count as usize, expected_txs.len());
    assert_eq!(paginated.limit, query.limit);
    assert!(paginated.list.len() <= query.limit as usize);
    assert_eq!(paginated.direction, PaginationDirection::Older);
    assert_eq!(paginated.from.tx_hash, tx_hash);
    assert_eq!(paginated.from.block_number, block_number);

    for (tx, expected_tx) in paginated.list.into_iter().zip(expected_txs) {
        assert_eq!(tx.tx_hash, expected_tx.tx_hash);
        assert_eq!(tx.created_at, expected_tx.created_at);
        assert_eq!(tx.block_number, expected_tx.block_number);
    }
}
