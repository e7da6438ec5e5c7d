//! In-memory model of the backing store: the persisted blocks in ascending
//! order, the transactions in their per-block sequence order, and a fault
//! flag standing for connectivity failure. Every operation counts as one
//! backing-store query, so callers can state when the store is not touched.

use vstd::prelude::*;
use crate::error::StorageError;
use crate::types::{BlockDetails, BlockNumber, Transaction};

verus! {

/// Block numbers strictly increase along the stored sequence.
pub open spec fn blocks_sorted(blocks: Seq<BlockDetails>) -> bool {
    forall|i: int, j: int|
        0 <= i < j < blocks.len() ==> blocks[i].block_number < blocks[j].block_number
}

/// Some stored block carries the number `n`.
pub open spec fn has_block(blocks: Seq<BlockDetails>, n: u32) -> bool {
    exists|i: int| 0 <= i < blocks.len() && blocks[i].block_number == n
}

/// The stored details of block `n`, or absence when no such block exists.
pub open spec fn block_lookup(blocks: Seq<BlockDetails>, n: u32) -> Option<BlockDetails> {
    if has_block(blocks, n) {
        Some(blocks[choose|i: int| 0 <= i < blocks.len() && blocks[i].block_number == n])
    } else {
        None
    }
}

/// Number of the latest committed block, 0 when none is committed.
pub open spec fn last_committed_spec(blocks: Seq<BlockDetails>) -> u32
    decreases blocks.len(),
{
    if blocks.len() == 0 {
        0
    } else if blocks.last().is_committed {
        blocks.last().block_number
    } else {
        last_committed_spec(blocks.drop_last())
    }
}

/// Number of the latest finalized (verified) block, 0 when none is.
pub open spec fn last_verified_spec(blocks: Seq<BlockDetails>) -> u32
    decreases blocks.len(),
{
    if blocks.len() == 0 {
        0
    } else if blocks.last().is_verified {
        blocks.last().block_number
    } else {
        last_verified_spec(blocks.drop_last())
    }
}

/// The backing store as seen by this crate.
pub struct StorageEngine {
    /// Persisted blocks, strictly ascending by block number.
    pub blocks: Vec<BlockDetails>,
    /// Persisted transactions; those of one block appear in their
    /// in-block order.
    pub txs: Vec<Transaction>,
    /// When set, every operation fails, standing for lost connectivity.
    pub faulty: bool,
    /// How many backing-store queries have been answered so far.
    pub query_count: u64,
}

impl StorageEngine {
    /// Well-formedness: blocks strictly ordered and counts within `u32`.
    pub open spec fn wf(&self) -> bool {
        &&& blocks_sorted(self.blocks@)
        &&& self.blocks@.len() <= u32::MAX
        &&& self.txs@.len() <= u32::MAX
    }

    /// An empty, healthy store.
    pub fn new() -> (r: StorageEngine)
        ensures
            r.wf(),
            r.blocks@ =~= Seq::<BlockDetails>::empty(),
            r.txs@ =~= Seq::<Transaction>::empty(),
            !r.faulty,
            r.query_count == 0,
    {
        StorageEngine { blocks: Vec::new(), txs: Vec::new(), faulty: false, query_count: 0 }
    }

    /// Append one block past the current head.
    pub fn push_block(&mut self, d: BlockDetails)
        requires
            old(self).wf(),
            old(self).blocks@.len() < u32::MAX,
            old(self).blocks@.len() > 0 ==> old(self).blocks@.last().block_number < d.block_number,
        ensures
            final(self).wf(),
            final(self).blocks@ == old(self).blocks@.push(d),
            final(self).txs@ == old(self).txs@,
            final(self).faulty == old(self).faulty,
            final(self).query_count == old(self).query_count,
    {
        self.blocks.push(d);
    }

    /// Append one transaction at the end of its block's sequence.
    pub fn push_transaction(&mut self, t: Transaction)
        requires
            old(self).wf(),
            old(self).txs@.len() < u32::MAX,
        ensures
            final(self).wf(),
            final(self).txs@ == old(self).txs@.push(t),
            final(self).blocks@ == old(self).blocks@,
            final(self).faulty == old(self).faulty,
            final(self).query_count == old(self).query_count,
    {
        self.txs.push(t);
    }

    /// Make every later operation fail, or heal the store again.
    pub fn set_faulty(&mut self, faulty: bool)
        requires
            old(self).wf(),
        ensures
            final(self).wf(),
            final(self).blocks@ == old(self).blocks@,
            final(self).txs@ == old(self).txs@,
            final(self).faulty == faulty,
            final(self).query_count == old(self).query_count,
    {
        self.faulty = faulty;
    }

    /// Fetch block `n`'s details; absence is not an error.
    #[verifier::loop_isolation(false)]
    pub fn get_block(&mut self, n: u32) -> (r: Result<Option<BlockDetails>, StorageError>)
        requires
            old(self).wf(),
            old(self).query_count < u64::MAX,
        ensures
            final(self).wf(),
            final(self).blocks@ == old(self).blocks@,
            final(self).txs@ == old(self).txs@,
            final(self).faulty == old(self).faulty,
            final(self).query_count == old(self).query_count + 1,
            old(self).faulty ==> r == Err::<Option<BlockDetails>, StorageError>(
                StorageError::Unavailable,
            ),
            !old(self).faulty ==> r == Ok::<Option<BlockDetails>, StorageError>(
                block_lookup(old(self).blocks@, n),
            ),
    {
        self.query_count = self.query_count + 1;
        if self.faulty {
            return Err(StorageError::Unavailable);
        }
        let ghost blocks = self.blocks@;
        let mut i: usize = 0;
        while i < self.blocks.len()
            invariant
                self.blocks@ == blocks,
                i <= blocks.len(),
                blocks_sorted(blocks),
                forall|k: int| 0 <= k < i ==> blocks[k].block_number != n,
            decreases blocks.len() - i,
        {
            if self.blocks[i].block_number == n {
                proof {
                    assert(has_block(blocks, n));
                    let j = choose|j: int|
                        0 <= j < blocks.len() && blocks[j].block_number == n;
                    if j < i {
                        assert(blocks[j].block_number < blocks[i as int].block_number);
                    }
                    if i < j {
                        assert(blocks[i as int].block_number < blocks[j].block_number);
                    }
                    assert(j == i);
                }
                return Ok(Some(self.blocks[i]));
            }
            i = i + 1;
        }
        proof {
            if has_block(blocks, n) {
                let j = choose|j: int|
                    0 <= j < blocks.len() && blocks[j].block_number == n;
                assert(blocks[j].block_number != n);
            }
        }
        Ok(None)
    }

    /// Fetch the number of the latest committed block.
    #[verifier::loop_isolation(false)]
    pub fn get_last_committed_block(&mut self) -> (r: Result<BlockNumber, StorageError>)
        requires
            old(self).wf(),
            old(self).query_count < u64::MAX,
        ensures
            final(self).wf(),
            final(self).blocks@ == old(self).blocks@,
            final(self).txs@ == old(self).txs@,
            final(self).faulty == old(self).faulty,
            final(self).query_count == old(self).query_count + 1,
            old(self).faulty ==> r == Err::<BlockNumber, StorageError>(StorageError::Unavailable),
            !old(self).faulty ==> r == Ok::<BlockNumber, StorageError>(
                BlockNumber(last_committed_spec(old(self).blocks@)),
            ),
    {
        self.query_count = self.query_count + 1;
        if self.faulty {
            return Err(StorageError::Unavailable);
        }
        let ghost blocks = self.blocks@;
        proof {
            assert(blocks.take(blocks.len() as int) =~= blocks);
        }
        let mut i: usize = self.blocks.len();
        while i > 0
            invariant
                self.blocks@ == blocks,
                i <= blocks.len(),
                last_committed_spec(blocks) == last_committed_spec(blocks.take(i as int)),
            decreases i,
        {
            i = i - 1;
            proof {
                assert(blocks.take(i + 1).drop_last() =~= blocks.take(i as int));
                assert(blocks.take(i + 1).last() == blocks[i as int]);
            }
            if self.blocks[i].is_committed {
                return Ok(BlockNumber(self.blocks[i].block_number));
            }
        }
        proof {
            assert(blocks.take(0).len() == 0);
        }
        Ok(BlockNumber(0))
    }

    /// Fetch the number of the latest finalized (verified) block.
    #[verifier::loop_isolation(false)]
    pub fn get_last_verified_confirmed_block(&mut self) -> (r: Result<BlockNumber, StorageError>)
        requires
            old(self).wf(),
            old(self).query_count < u64::MAX,
        ensures
            final(self).wf(),
            final(self).blocks@ == old(self).blocks@,
            final(self).txs@ == old(self).txs@,
            final(self).faulty == old(self).faulty,
            final(self).query_count == old(self).query_count + 1,
            old(self).faulty ==> r == Err::<BlockNumber, StorageError>(StorageError::Unavailable),
            !old(self).faulty ==> r == Ok::<BlockNumber, StorageError>(
                BlockNumber(last_verified_spec(old(self).blocks@)),
            ),
    {
        self.query_count = self.query_count + 1;
        if self.faulty {
            return Err(StorageError::Unavailable);
        }
        let ghost blocks = self.blocks@;
        proof {
            assert(blocks.take(blocks.len() as int) =~= blocks);
        }
        let mut i: usize = self.blocks.len();
        while i > 0
            invariant
                self.blocks@ == blocks,
                i <= blocks.len(),
                last_verified_spec(blocks) == last_verified_spec(blocks.take(i as int)),
            decreases i,
        {
            i = i - 1;
            proof {
                assert(blocks.take(i + 1).drop_last() =~= blocks.take(i as int));
                assert(blocks.take(i + 1).last() == blocks[i as int]);
            }
            if self.blocks[i].is_verified {
                return Ok(BlockNumber(self.blocks[i].block_number));
            }
        }
        proof {
            assert(blocks.take(0).len() == 0);
        }
        Ok(BlockNumber(0))
    }
}

} // verus!
