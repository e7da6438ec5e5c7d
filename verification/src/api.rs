//! The query facade: resolve a position, consult the cache for single
//! blocks, paginate for listings. Any resolution error short-circuits
//! without touching the cache or the pagination engine.

use vstd::prelude::*;
use crate::cache::BlockDetailsCache;
use crate::error::{Error, StorageError};
use crate::pagination::{blocks_page_spec, txs_of_block, txs_page_spec};
use crate::resolver::{parse_block_position, position_of, BlockPosition};
use crate::store::{last_committed_spec, last_verified_spec, StorageEngine};
use crate::types::{
    block_info_of, BlockAndTxHash, BlockDetails, BlockInfo, BlockNumber, Paginated,
    PaginationQuery, Transaction, TxHash,
};

verus! {

/// Shared state behind the block query operations: the cache of
/// finalized block details. The backing store is handed to each call.
pub struct ApiBlockData {
    pub cache: BlockDetailsCache,
}

/// What resolving a position string returns: a numeric position is taken
/// as it stands, a keyword reads the store's current head at call time,
/// anything else is invalid input.
pub open spec fn resolve_result_spec(s: StorageEngine, pos: Seq<char>) -> Result<
    BlockNumber,
    Error,
> {
    match position_of(pos) {
        Option::Some(BlockPosition::Numeric(n)) => Ok(n),
        Option::Some(BlockPosition::LastCommitted) => if s.faulty {
            Err(Error::Storage(StorageError::Unavailable))
        } else {
            Ok(BlockNumber(last_committed_spec(s.blocks@)))
        },
        Option::Some(BlockPosition::LastFinalized) => if s.faulty {
            Err(Error::Storage(StorageError::Unavailable))
        } else {
            Ok(BlockNumber(last_verified_spec(s.blocks@)))
        },
        Option::None => Err(Error::InvalidBlockPosition),
    }
}

/// How many backing-store queries resolution issues: none for a numeric
/// or invalid position, one for a keyword.
pub open spec fn resolve_queries_spec(pos: Seq<char>) -> nat {
    match position_of(pos) {
        Option::Some(BlockPosition::Numeric(n)) => 0,
        Option::Some(BlockPosition::LastCommitted) => 1,
        Option::Some(BlockPosition::LastFinalized) => 1,
        Option::None => 0,
    }
}

/// What looking one block up through the cache returns, projected to the
/// public shape.
pub open spec fn get_block_info_spec(c: BlockDetailsCache, s: StorageEngine, n: u32) -> Result<
    Option<BlockInfo>,
    Error,
> {
    match BlockDetailsCache::get_result_spec(c, s, n) {
        Result::Ok(Option::Some(d)) => Ok(Some(block_info_of(d))),
        Result::Ok(Option::None) => Ok(None),
        Result::Err(e) => Err(Error::Storage(e)),
    }
}

impl ApiBlockData {
    /// Build the facade around an existing cache.
    pub fn new(cache: BlockDetailsCache) -> (r: ApiBlockData)
        ensures
            r.cache == cache,
    {
        ApiBlockData { cache }
    }

    /// Details of the block with the given number, served from the cache
    /// when it holds them; backing-store failures are wrapped.
    pub fn block_info(&mut self, store: &mut StorageEngine, block_number: BlockNumber) -> (r:
        Result<Option<BlockDetails>, Error>)
        requires
            old(self).cache.wf(),
            old(store).wf(),
            old(store).query_count < u64::MAX,
        ensures
            final(self).cache.wf(),
            final(store).wf(),
            final(self).cache.capacity == old(self).cache.capacity,
            final(store).blocks@ == old(store).blocks@,
            final(store).txs@ == old(store).txs@,
            final(store).faulty == old(store).faulty,
            r == (match BlockDetailsCache::get_result_spec(
                old(self).cache,
                *old(store),
                block_number.0,
            ) {
                Result::Ok(o) => Ok::<Option<BlockDetails>, Error>(o),
                Result::Err(e) => Err(Error::Storage(e)),
            }),
            final(self).cache.entries@ == BlockDetailsCache::get_entries_spec(
                old(self).cache,
                *old(store),
                block_number.0,
            ),
            final(store).query_count == old(store).query_count
                + BlockDetailsCache::get_fetches_spec(
                old(self).cache,
                *old(store),
                block_number.0,
            ),
    {
        match self.cache.get(store, block_number) {
            Ok(o) => Ok(o),
            Err(e) => Err(Error::storage(e)),
        }
    }

    /// Turn a position string into a block number. Numeric positions are
    /// returned as they stand, without storage access and without any
    /// check that the block exists; keywords are re-read from the store
    /// on every call; anything else is invalid input.
    pub fn get_block_number_by_position(
        &self,
        store: &mut StorageEngine,
        block_position: &str,
    ) -> (r: Result<BlockNumber, Error>)
        requires
            old(store).wf(),
            old(store).query_count < u64::MAX,
        ensures
            final(store).wf(),
            final(store).blocks@ == old(store).blocks@,
            final(store).txs@ == old(store).txs@,
            final(store).faulty == old(store).faulty,
            r == resolve_result_spec(*old(store), block_position@),
            final(store).query_count == old(store).query_count + resolve_queries_spec(
                block_position@,
            ),
    {
        match parse_block_position(block_position) {
            Some(BlockPosition::Numeric(number)) => Ok(number),
            Some(BlockPosition::LastCommitted) => match store.get_last_committed_block() {
                Ok(number) => Ok(number),
                Err(err) => Err(Error::storage(err)),
            },
            Some(BlockPosition::LastFinalized) => match store.get_last_verified_confirmed_block() {
                Ok(number) => Ok(number),
                Err(err) => Err(Error::storage(err)),
            },
            None => Err(Error::InvalidBlockPosition),
        }
    }

    /// A page of the block sequence; backing-store failures are wrapped.
    pub fn block_page(&self, store: &mut StorageEngine, query: PaginationQuery<BlockNumber>) -> (r:
        Result<Paginated<BlockInfo, BlockNumber>, Error>)
        requires
            old(store).wf(),
            old(store).query_count < u64::MAX,
        ensures
            final(store).wf(),
            final(store).blocks@ == old(store).blocks@,
            final(store).txs@ == old(store).txs@,
            final(store).faulty == old(store).faulty,
            final(store).query_count == old(store).query_count + 1,
            old(store).faulty ==> r == Err::<Paginated<BlockInfo, BlockNumber>, Error>(
                Error::Storage(StorageError::Unavailable),
            ),
            !old(store).faulty ==> (r matches Ok(p) && p.list@ == blocks_page_spec(
                old(store).blocks@,
                query.from.0,
                query.direction,
                query.limit,
            ).map_values(|d: BlockDetails| block_info_of(d)) && p.count == old(
                store,
            ).blocks@.len() && p.limit == query.limit && p.direction == query.direction && p.from
                == query.from && p.list@.len() <= query.limit),
    {
        match store.paginate_blocks(&query) {
            Ok(p) => Ok(p),
            Err(e) => Err(Error::storage(e)),
        }
    }

    /// A page of one block's transactions: the composite cursor pins the
    /// scope to `block_number`, the hash of the incoming query anchors
    /// the position inside it.
    pub fn transaction_page(
        &self,
        store: &mut StorageEngine,
        block_number: BlockNumber,
        query: PaginationQuery<TxHash>,
    ) -> (r: Result<Paginated<Transaction, BlockAndTxHash>, Error>)
        requires
            old(store).wf(),
            old(store).query_count < u64::MAX,
        ensures
            final(store).wf(),
            final(store).blocks@ == old(store).blocks@,
            final(store).txs@ == old(store).txs@,
            final(store).faulty == old(store).faulty,
            final(store).query_count == old(store).query_count + 1,
            old(store).faulty ==> r == Err::<Paginated<Transaction, BlockAndTxHash>, Error>(
                Error::Storage(StorageError::Unavailable),
            ),
            !old(store).faulty ==> (r matches Ok(p) && p.list@ == txs_page_spec(
                txs_of_block(old(store).txs@, block_number.0),
                query.from,
                query.direction,
                query.limit,
            ) && p.count == txs_of_block(old(store).txs@, block_number.0).len() && p.limit
                == query.limit && p.direction == query.direction && p.from == (BlockAndTxHash {
                block_number,
                tx_hash: query.from,
            }) && p.list@.len() <= query.limit && (forall|k: int|
                0 <= k < p.list@.len() ==> p.list@[k].block_number == block_number.0)),
    {
        let new_query = PaginationQuery {
            from: BlockAndTxHash { block_number, tx_hash: query.from },
            limit: query.limit,
            direction: query.direction,
        };
        match store.paginate_block_transactions(&new_query) {
            Ok(p) => Ok(p),
            Err(e) => Err(Error::storage(e)),
        }
    }

    /// The store's current committed head, read at call time.
    pub fn get_last_committed_block_number(&self, store: &mut StorageEngine) -> (r: Result<
        BlockNumber,
        StorageError,
    >)
        requires
            old(store).wf(),
            old(store).query_count < u64::MAX,
        ensures
            final(store).wf(),
            final(store).blocks@ == old(store).blocks@,
            final(store).txs@ == old(store).txs@,
            final(store).faulty == old(store).faulty,
            final(store).query_count == old(store).query_count + 1,
            old(store).faulty ==> r == Err::<BlockNumber, StorageError>(
                StorageError::Unavailable,
            ),
            !old(store).faulty ==> r == Ok::<BlockNumber, StorageError>(
                BlockNumber(last_committed_spec(old(store).blocks@)),
            ),
    {
        store.get_last_committed_block()
    }

    /// The store's current finalized head, read at call time.
    pub fn get_last_finalized_block_number(&self, store: &mut StorageEngine) -> (r: Result<
        BlockNumber,
        StorageError,
    >)
        requires
            old(store).wf(),
            old(store).query_count < u64::MAX,
        ensures
            final(store).wf(),
            final(store).blocks@ == old(store).blocks@,
            final(store).txs@ == old(store).txs@,
            final(store).faulty == old(store).faulty,
            final(store).query_count == old(store).query_count + 1,
            old(store).faulty ==> r == Err::<BlockNumber, StorageError>(
                StorageError::Unavailable,
            ),
            !old(store).faulty ==> r == Ok::<BlockNumber, StorageError>(
                BlockNumber(last_verified_spec(old(store).blocks@)),
            ),
    {
        store.get_last_verified_confirmed_block()
    }
}

/// List blocks: direct pagination, the cursor already being a concrete
/// block number.
pub fn block_pagination(
    data: &ApiBlockData,
    store: &mut StorageEngine,
    query: PaginationQuery<BlockNumber>,
) -> (r: Result<Paginated<BlockInfo, BlockNumber>, Error>)
    requires
        old(store).wf(),
        old(store).query_count < u64::MAX,
    ensures
        final(store).wf(),
        final(store).blocks@ == old(store).blocks@,
        final(store).txs@ == old(store).txs@,
        final(store).faulty == old(store).faulty,
        final(store).query_count == old(store).query_count + 1,
        old(store).faulty ==> r == Err::<Paginated<BlockInfo, BlockNumber>, Error>(
            Error::Storage(StorageError::Unavailable),
        ),
        !old(store).faulty ==> (r matches Ok(p) && p.list@ == blocks_page_spec(
            old(store).blocks@,
            query.from.0,
            query.direction,
            query.limit,
        ).map_values(|d: BlockDetails| block_info_of(d)) && p.count == old(store).blocks@.len()
            && p.limit == query.limit && p.direction == query.direction && p.from == query.from
            && p.list@.len() <= query.limit),
{
    data.block_page(store, query)
}

/// Get one block by position: resolve, then look the number up through
/// the cache; a resolution error is returned without a lookup.
pub fn block_by_number(
    data: &mut ApiBlockData,
    store: &mut StorageEngine,
    block_position: &str,
) -> (r: Result<Option<BlockInfo>, Error>)
    requires
        old(data).cache.wf(),
        old(store).wf(),
        old(store).query_count < u64::MAX - 1,
    ensures
        final(data).cache.wf(),
        final(store).wf(),
        final(data).cache.capacity == old(data).cache.capacity,
        final(store).blocks@ == old(store).blocks@,
        final(store).txs@ == old(store).txs@,
        final(store).faulty == old(store).faulty,
        resolve_result_spec(*old(store), block_position@) matches Err(e) ==> (r == Err::<
            Option<BlockInfo>,
            Error,
        >(e) && final(data).cache.entries@ == old(data).cache.entries@ && final(store).query_count
            == old(store).query_count + resolve_queries_spec(block_position@)),
        resolve_result_spec(*old(store), block_position@) matches Ok(n) ==> (r
            == get_block_info_spec(old(data).cache, *old(store), n.0)
            && final(data).cache.entries@ == BlockDetailsCache::get_entries_spec(
            old(data).cache,
            *old(store),
            n.0,
        ) && final(store).query_count == old(store).query_count + resolve_queries_spec(
            block_position@,
        ) + BlockDetailsCache::get_fetches_spec(old(data).cache, *old(store), n.0)),
{
    let block_number: BlockNumber;
    match data.get_block_number_by_position(store, block_position) {
        Ok(number) => {
            block_number = number;
        },
        Err(err) => {
            return Err(err);
        },
    }
    match data.block_info(store, block_number) {
        Ok(Some(details)) => Ok(Some(BlockInfo::from_details(&details))),
        Ok(None) => Ok(None),
        Err(err) => Err(err),
    }
}

/// List one block's transactions by position: resolve, build the
/// composite cursor, paginate; a resolution error is returned without
/// touching the pagination engine.
pub fn block_transactions(
    data: &ApiBlockData,
    store: &mut StorageEngine,
    block_position: &str,
    query: PaginationQuery<TxHash>,
) -> (r: Result<Paginated<Transaction, BlockAndTxHash>, Error>)
    requires
        old(store).wf(),
        old(store).query_count < u64::MAX - 1,
    ensures
        final(store).wf(),
        final(store).blocks@ == old(store).blocks@,
        final(store).txs@ == old(store).txs@,
        final(store).faulty == old(store).faulty,
        resolve_result_spec(*old(store), block_position@) matches Err(e) ==> (r == Err::<
            Paginated<Transaction, BlockAndTxHash>,
            Error,
        >(e) && final(store).query_count == old(store).query_count + resolve_queries_spec(
            block_position@,
        )),
        resolve_result_spec(*old(store), block_position@) matches Ok(n) ==> (
            final(store).query_count == old(store).query_count + resolve_queries_spec(
            block_position@,
        ) + 1 && (
        old(store).faulty ==> r == Err::<Paginated<Transaction, BlockAndTxHash>, Error>(
            Error::Storage(StorageError::Unavailable),
        )) && (!old(store).faulty ==> (r matches Ok(p) && p.list@ == txs_page_spec(
            txs_of_block(old(store).txs@, n.0),
            query.from,
            query.direction,
            query.limit,
        ) && p.count == txs_of_block(old(store).txs@, n.0).len() && p.limit == query.limit
            && p.direction == query.direction && p.from == (BlockAndTxHash {
            block_number: n,
            tx_hash: query.from,
        }) && p.list@.len() <= query.limit && (forall|k: int|
            0 <= k < p.list@.len() ==> p.list@[k].block_number == n.0)))),
{
    let block_number: BlockNumber;
    match data.get_block_number_by_position(store, block_position) {
        Ok(number) => {
            block_number = number;
        },
        Err(err) => {
            return Err(err);
        },
    }
    data.transaction_page(store, block_number, query)
}

} // verus!
