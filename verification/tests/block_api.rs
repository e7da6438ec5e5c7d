use block_api::api::{block_by_number, block_pagination, block_transactions, ApiBlockData};
use block_api::cache::BlockDetailsCache;
use block_api::error::{Error, StorageError};
use block_api::store::StorageEngine;
use block_api::types::{
    BlockDetails, BlockNumber, BlockStatus, PaginationDirection, PaginationQuery, Transaction,
    TxHash,
};

fn block(n: u32, root: u64, created: u64, committed: bool, verified: bool) -> BlockDetails {
    BlockDetails {
        block_number: n,
        new_state_root: root,
        created_at: created,
        is_committed: committed,
        is_verified: verified,
    }
}

fn tx(hash: u64, block_number: u32, created: u64) -> Transaction {
    Transaction { tx_hash: TxHash(hash), block_number, created_at: created }
}

/// Blocks 1..=5, all committed, block 3 finalized; block 3 carries
/// three transactions, block 2 one.
fn sample_store() -> StorageEngine {
    let mut store = StorageEngine::new();
    store.push_block(block(1, 11, 100, true, false));
    store.push_block(block(2, 22, 200, true, false));
    store.push_block(block(3, 33, 300, true, true));
    store.push_block(block(4, 44, 400, true, false));
    store.push_block(block(5, 55, 500, true, false));
    store.push_transaction(tx(31, 3, 301));
    store.push_transaction(tx(21, 2, 201));
    store.push_transaction(tx(32, 3, 302));
    store.push_transaction(tx(33, 3, 303));
    store
}

fn data() -> ApiBlockData {
    ApiBlockData::new(BlockDetailsCache::new(10))
}

#[test]
fn resolve_numeric_needs_no_storage_access() {
    let mut store = sample_store();
    let d = data();
    let before = store.query_count;
    assert_eq!(d.get_block_number_by_position(&mut store, "7"), Ok(BlockNumber(7)));
    assert_eq!(d.get_block_number_by_position(&mut store, "0"), Ok(BlockNumber(0)));
    assert_eq!(d.get_block_number_by_position(&mut store, "+12"), Ok(BlockNumber(12)));
    assert_eq!(
        d.get_block_number_by_position(&mut store, "4294967295"),
        Ok(BlockNumber(u32::MAX))
    );
    assert_eq!(store.query_count, before);
}

#[test]
fn resolve_numeric_ignores_existence() {
    let mut store = sample_store();
    let d = data();
    assert_eq!(d.get_block_number_by_position(&mut store, "999"), Ok(BlockNumber(999)));
}

#[test]
fn resolve_last_committed_reads_current_head() {
    let mut store = sample_store();
    let d = data();
    let before = store.query_count;
    assert_eq!(
        d.get_block_number_by_position(&mut store, "last_committed"),
        Ok(BlockNumber(5))
    );
    assert_eq!(store.query_count, before + 1);
    store.push_block(block(6, 66, 600, true, false));
    assert_eq!(
        d.get_block_number_by_position(&mut store, "last_committed"),
        Ok(BlockNumber(6))
    );
}

#[test]
fn resolve_last_finalized_reads_current_head() {
    let mut store = sample_store();
    let d = data();
    assert_eq!(
        d.get_block_number_by_position(&mut store, "last_finalized"),
        Ok(BlockNumber(3))
    );
}

#[test]
fn resolve_keyword_on_empty_store_is_zero() {
    let mut store = StorageEngine::new();
    let d = data();
    assert_eq!(
        d.get_block_number_by_position(&mut store, "last_committed"),
        Ok(BlockNumber(0))
    );
    assert_eq!(
        d.get_block_number_by_position(&mut store, "last_finalized"),
        Ok(BlockNumber(0))
    );
}

#[test]
fn resolve_rejects_invalid_positions() {
    let mut store = sample_store();
    let d = data();
    let before = store.query_count;
    for bad in ["", "-1", "12a", "latest", "last_commited", "4294967296", "+", "++3"] {
        assert_eq!(
            d.get_block_number_by_position(&mut store, bad),
            Err(Error::InvalidBlockPosition),
            "position {:?} should be invalid",
            bad
        );
    }
    assert_eq!(store.query_count, before);
}

#[test]
fn resolve_keyword_propagates_storage_failure() {
    let mut store = sample_store();
    store.set_faulty(true);
    let d = data();
    assert_eq!(
        d.get_block_number_by_position(&mut store, "last_committed"),
        Err(Error::Storage(StorageError::Unavailable))
    );
    assert_eq!(
        d.get_block_number_by_position(&mut store, "last_finalized"),
        Err(Error::Storage(StorageError::Unavailable))
    );
    assert_eq!(
        d.get_block_number_by_position(&mut store, "3"),
        Ok(BlockNumber(3)),
        "a numeric position resolves even while the store is down"
    );
}

#[test]
fn finalized_get_is_cached_and_idempotent() {
    let mut store = sample_store();
    let mut d = data();
    let first = d.block_info(&mut store, BlockNumber(3)).unwrap();
    let after_first = store.query_count;
    let second = d.block_info(&mut store, BlockNumber(3)).unwrap();
    assert_eq!(first, second);
    assert_eq!(
        store.query_count, after_first,
        "the second call must be served from the cache"
    );
    assert_eq!(first.unwrap(), block(3, 33, 300, true, true));
}

#[test]
fn pending_block_is_returned_but_not_cached() {
    let mut store = sample_store();
    let mut d = data();
    let first = d.block_info(&mut store, BlockNumber(2)).unwrap();
    let after_first = store.query_count;
    let second = d.block_info(&mut store, BlockNumber(2)).unwrap();
    assert_eq!(first, second);
    assert_eq!(
        store.query_count,
        after_first + 1,
        "a pending block must be fetched afresh each time"
    );
    assert_eq!(d.cache.entries.len(), 0);
}

#[test]
fn unknown_block_is_absence_not_error() {
    let mut store = sample_store();
    let mut d = data();
    assert_eq!(d.block_info(&mut store, BlockNumber(999)), Ok(None));
    assert_eq!(d.cache.entries.len(), 0, "absence is never cached");
    let after = store.query_count;
    assert_eq!(d.block_info(&mut store, BlockNumber(999)), Ok(None));
    assert_eq!(store.query_count, after + 1);
}

#[test]
fn cache_failure_is_wrapped_and_nothing_cached() {
    let mut store = sample_store();
    store.set_faulty(true);
    let mut d = data();
    assert_eq!(
        d.block_info(&mut store, BlockNumber(3)),
        Err(Error::Storage(StorageError::Unavailable))
    );
    assert_eq!(d.cache.entries.len(), 0);
}

#[test]
fn cache_hit_survives_storage_failure() {
    let mut store = sample_store();
    let mut d = data();
    let first = d.block_info(&mut store, BlockNumber(3)).unwrap();
    store.set_faulty(true);
    let second = d.block_info(&mut store, BlockNumber(3)).unwrap();
    assert_eq!(first, second, "a cached block is served without the store");
}

#[test]
fn full_cache_evicts_oldest_entry() {
    let mut store = StorageEngine::new();
    store.push_block(block(1, 11, 100, true, true));
    store.push_block(block(2, 22, 200, true, true));
    let mut d = ApiBlockData::new(BlockDetailsCache::new(1));
    d.block_info(&mut store, BlockNumber(1)).unwrap();
    assert_eq!(d.cache.entries.len(), 1);
    d.block_info(&mut store, BlockNumber(2)).unwrap();
    assert_eq!(d.cache.entries.len(), 1, "capacity stays bounded");
    assert_eq!(d.cache.entries[0].block_number, 2);
    let before = store.query_count;
    d.block_info(&mut store, BlockNumber(1)).unwrap();
    assert_eq!(store.query_count, before + 1, "the evicted block is fetched again");
}

#[test]
fn zero_capacity_cache_never_stores() {
    let mut store = sample_store();
    let mut d = ApiBlockData::new(BlockDetailsCache::new(0));
    d.block_info(&mut store, BlockNumber(3)).unwrap();
    assert_eq!(d.cache.entries.len(), 0);
}

#[test]
fn block_pagination_newer_is_bounded_and_echoes() {
    let mut store = sample_store();
    let d = data();
    let query = PaginationQuery {
        from: BlockNumber(1),
        limit: 3,
        direction: PaginationDirection::Newer,
    };
    let page = block_pagination(&d, &mut store, query).unwrap();
    assert!(page.list.len() <= query.limit as usize);
    assert_eq!(page.limit, query.limit);
    assert_eq!(page.direction, query.direction);
    assert_eq!(page.from, query.from);
    assert_eq!(page.count, 5, "count is the whole sequence, not the page");
    let numbers: Vec<u32> = page.list.iter().map(|b| b.block_number).collect();
    assert_eq!(numbers, vec![2, 3, 4], "strictly past the cursor, ascending");
    assert_eq!(page.list[1].status, BlockStatus::Finalized);
    assert_eq!(page.list[0].status, BlockStatus::Committed);
}

#[test]
fn block_pagination_older_returns_nearest_below_ascending() {
    let mut store = sample_store();
    let d = data();
    let query = PaginationQuery {
        from: BlockNumber(4),
        limit: 2,
        direction: PaginationDirection::Older,
    };
    let page = block_pagination(&d, &mut store, query).unwrap();
    let numbers: Vec<u32> = page.list.iter().map(|b| b.block_number).collect();
    assert_eq!(numbers, vec![2, 3], "the two nearest below 4, re-ascended");
    assert_eq!(page.count, 5);
}

#[test]
fn block_pagination_limit_zero_gives_empty_list() {
    let mut store = sample_store();
    let d = data();
    let query = PaginationQuery {
        from: BlockNumber(1),
        limit: 0,
        direction: PaginationDirection::Newer,
    };
    let page = block_pagination(&d, &mut store, query).unwrap();
    assert!(page.list.is_empty());
    assert_eq!(page.count, 5);
}

#[test]
fn block_pagination_propagates_storage_failure() {
    let mut store = sample_store();
    store.set_faulty(true);
    let d = data();
    let query = PaginationQuery {
        from: BlockNumber(1),
        limit: 3,
        direction: PaginationDirection::Newer,
    };
    assert_eq!(
        block_pagination(&d, &mut store, query),
        Err(Error::Storage(StorageError::Unavailable))
    );
}

#[test]
fn transaction_page_stays_inside_its_block() {
    let mut store = sample_store();
    let d = data();
    let query = PaginationQuery {
        from: TxHash(31),
        limit: 10,
        direction: PaginationDirection::Newer,
    };
    let page = block_transactions(&d, &mut store, "3", query).unwrap();
    for t in &page.list {
        assert_eq!(t.block_number, 3, "no transaction of another block is returned");
    }
    let hashes: Vec<u64> = page.list.iter().map(|t| t.tx_hash.0).collect();
    assert_eq!(hashes, vec![32, 33], "in-block order past the anchor");
    assert_eq!(page.count, 3, "count is the block's whole transaction count");
    assert_eq!(page.from.block_number, BlockNumber(3));
    assert_eq!(page.from.tx_hash, TxHash(31));
}

#[test]
fn transaction_page_older_returns_nearest_before_anchor() {
    let mut store = sample_store();
    let d = data();
    let query = PaginationQuery {
        from: TxHash(33),
        limit: 2,
        direction: PaginationDirection::Older,
    };
    let page = block_transactions(&d, &mut store, "3", query).unwrap();
    let hashes: Vec<u64> = page.list.iter().map(|t| t.tx_hash.0).collect();
    assert_eq!(hashes, vec![31, 32]);
    assert_eq!(page.count, 3);
}

#[test]
fn transaction_page_with_foreign_anchor_is_empty() {
    let mut store = sample_store();
    let d = data();
    let query = PaginationQuery {
        from: TxHash(21),
        limit: 5,
        direction: PaginationDirection::Newer,
    };
    let page = block_transactions(&d, &mut store, "3", query).unwrap();
    assert!(
        page.list.is_empty(),
        "an anchor from another block locates no position in this one"
    );
    assert_eq!(page.count, 3);
}

#[test]
fn block_transactions_invalid_position_short_circuits() {
    let mut store = sample_store();
    let d = data();
    let before = store.query_count;
    let query = PaginationQuery {
        from: TxHash(31),
        limit: 2,
        direction: PaginationDirection::Older,
    };
    assert_eq!(
        block_transactions(&d, &mut store, "soonest", query),
        Err(Error::InvalidBlockPosition)
    );
    assert_eq!(store.query_count, before, "no pagination follows a resolution error");
}

#[test]
fn block_by_number_maps_details_to_info() {
    let mut store = sample_store();
    let mut d = data();
    let info = block_by_number(&mut d, &mut store, "3").unwrap().unwrap();
    assert_eq!(info.block_number, 3);
    assert_eq!(info.new_state_root, 33);
    assert_eq!(info.created_at, 300);
    assert_eq!(info.status, BlockStatus::Finalized);
}

#[test]
fn block_by_number_unknown_is_absent() {
    let mut store = sample_store();
    let mut d = data();
    assert_eq!(block_by_number(&mut d, &mut store, "999"), Ok(None));
}

#[test]
fn block_by_number_invalid_position_errors() {
    let mut store = sample_store();
    let mut d = data();
    assert_eq!(
        block_by_number(&mut d, &mut store, "not_a_position"),
        Err(Error::InvalidBlockPosition)
    );
}

#[test]
fn end_to_end_scenario() {
    let mut store = sample_store();
    let mut d = data();

    let first = block_by_number(&mut d, &mut store, "3").unwrap();
    let after_first = store.query_count;
    let second = block_by_number(&mut d, &mut store, "3").unwrap();
    assert_eq!(first, second, "two requests for the finalized block agree");
    assert_eq!(store.query_count, after_first, "and only the first one fetched");

    let head = block_by_number(&mut d, &mut store, "last_committed").unwrap().unwrap();
    assert_eq!(head.block_number, 5, "the committed head is block 5");

    let query = PaginationQuery {
        from: TxHash(33),
        limit: 2,
        direction: PaginationDirection::Older,
    };
    let page = block_transactions(&d, &mut store, "3", query).unwrap();
    assert!(page.list.len() <= 2);
    for t in &page.list {
        assert_eq!(t.block_number, 3);
    }
    assert_eq!(page.count, 3, "count equals block 3's total transaction count");
}
