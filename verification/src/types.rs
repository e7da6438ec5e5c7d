//! Value types shared by the resolver, the cache and the pagination engine.

use vstd::prelude::*;

verus! {

/// Identifier of a block: non-negative, strictly increasing with creation order.
#[derive(Clone, Copy, Debug, PartialEq, Eq, Structural)]
pub struct BlockNumber(pub u32);

/// Identifier of a transaction; each transaction belongs to exactly one block.
#[derive(Clone, Copy, Debug, PartialEq, Eq, Structural)]
pub struct TxHash(pub u64);

/// Stored metadata of one block. Mutable while the block is pending,
/// immutable once `is_verified` holds.
#[derive(Clone, Copy, Debug, PartialEq, Eq, Structural)]
pub struct BlockDetails {
    pub block_number: u32,
    /// Commitment to the state after this block, opaque to this crate.
    pub new_state_root: u64,
    pub created_at: u64,
    pub is_committed: bool,
    pub is_verified: bool,
}

/// Lifecycle stage of a block as shown to clients.
#[derive(Clone, Copy, Debug, PartialEq, Eq, Structural)]
pub enum BlockStatus {
    Queued,
    Committed,
    Finalized,
}

/// Public shape of one block, derived from its stored details.
#[derive(Clone, Copy, Debug, PartialEq, Eq, Structural)]
pub struct BlockInfo {
    pub block_number: u32,
    pub new_state_root: u64,
    pub created_at: u64,
    pub status: BlockStatus,
}

/// One transaction as listed inside its block.
#[derive(Clone, Copy, Debug, PartialEq, Eq, Structural)]
pub struct Transaction {
    pub tx_hash: TxHash,
    pub block_number: u32,
    pub created_at: u64,
}

/// Direction of a paginated walk relative to the cursor.
#[derive(Clone, Copy, Debug, PartialEq, Eq, Structural)]
pub enum PaginationDirection {
    Newer,
    Older,
}

/// A page request: start after (or before) `from`, at most `limit` items.
#[derive(Clone, Copy, Debug, PartialEq, Eq)]
pub struct PaginationQuery<C> {
    pub from: C,
    pub limit: u32,
    pub direction: PaginationDirection,
}

/// A page of results together with the query echoed back and the total
/// number of items in the queried scope, independent of `limit`.
#[derive(Clone, Debug, PartialEq, Eq)]
pub struct Paginated<T, C> {
    pub list: Vec<T>,
    pub count: u32,
    pub limit: u32,
    pub direction: PaginationDirection,
    pub from: C,
}

/// Composite cursor for transaction listing: the block being paged through
/// and the transaction marking the position inside it.
#[derive(Clone, Copy, Debug, PartialEq, Eq, Structural)]
pub struct BlockAndTxHash {
    pub block_number: BlockNumber,
    pub tx_hash: TxHash,
}

/// The stage a block's flags put it in.
pub open spec fn status_of(d: BlockDetails) -> BlockStatus {
    if d.is_verified {
        BlockStatus::Finalized
    } else if d.is_committed {
        BlockStatus::Committed
    } else {
        BlockStatus::Queued
    }
}

/// The public shape of a stored block.
pub open spec fn block_info_of(d: BlockDetails) -> BlockInfo {
    BlockInfo {
        block_number: d.block_number,
        new_state_root: d.new_state_root,
        created_at: d.created_at,
        status: status_of(d),
    }
}

impl BlockInfo {
    /// Project the public fields out of the stored details.
    pub fn from_details(d: &BlockDetails) -> (r: BlockInfo)
        ensures
            r == block_info_of(*d),
    {
        let status = if d.is_verified {
            BlockStatus::Finalized
        } else if d.is_committed {
            BlockStatus::Committed
        } else {
            BlockStatus::Queued
        };
        BlockInfo {
            block_number: d.block_number,
            new_state_root: d.new_state_root,
            created_at: d.created_at,
            status,
        }
    }
}

} // verus!
