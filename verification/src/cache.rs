//! Bounded read-through cache for block metadata. Only finalized (verified)
//! blocks are inserted: their details never change again, so a hit may be
//! served without consulting the backing store. Absence is never cached,
//! and pending blocks are passed through uncached. When full, the
//! oldest-inserted entry is evicted. An embedding that serves requests
//! concurrently shares one cache behind its own lock and takes it
//! exclusively for the duration of a lookup.

use vstd::prelude::*;
use crate::error::StorageError;
use crate::store::{block_lookup, StorageEngine};
use crate::types::{BlockDetails, BlockNumber};

verus! {

/// Some cache entry carries the number `n`.
pub open spec fn has_entry(entries: Seq<BlockDetails>, n: u32) -> bool {
    exists|i: int| 0 <= i < entries.len() && entries[i].block_number == n
}

/// The cached details of block `n`, or absence on a miss.
pub open spec fn lookup_spec(entries: Seq<BlockDetails>, n: u32) -> Option<BlockDetails> {
    if has_entry(entries, n) {
        Some(entries[choose|i: int| 0 <= i < entries.len() && entries[i].block_number == n])
    } else {
        None
    }
}

/// The entries after inserting `d`: appended at the newest end, evicting
/// the oldest entry when the cache is full, dropped when capacity is zero.
pub open spec fn insert_spec(entries: Seq<BlockDetails>, capacity: nat, d: BlockDetails) -> Seq<
    BlockDetails,
> {
    if capacity == 0 {
        entries
    } else if entries.len() < capacity {
        entries.push(d)
    } else {
        entries.skip(1).push(d)
    }
}

/// Bounded cache of finalized block details, keyed by block number.
/// Entries are ordered oldest-inserted first.
pub struct BlockDetailsCache {
    pub capacity: usize,
    pub entries: Vec<BlockDetails>,
}

impl BlockDetailsCache {
    /// Well-formedness: bounded, keys unique, every entry finalized.
    pub open spec fn wf(&self) -> bool {
        &&& self.entries@.len() <= self.capacity
        &&& forall|i: int, j: int|
            0 <= i < j < self.entries@.len() ==> self.entries@[i].block_number
                != self.entries@[j].block_number
        &&& forall|i: int| 0 <= i < self.entries@.len() ==> self.entries@[i].is_verified
    }

    /// An empty cache holding at most `capacity` entries.
    pub fn new(capacity: usize) -> (r: BlockDetailsCache)
        ensures
            r.wf(),
            r.capacity == capacity,
            r.entries@ =~= Seq::<BlockDetails>::empty(),
    {
        BlockDetailsCache { capacity, entries: Vec::new() }
    }

    /// What `get` returns: the cached details on a hit; otherwise whatever
    /// the store answers, a fault included.
    pub open spec fn get_result_spec(c: BlockDetailsCache, s: StorageEngine, n: u32) -> Result<
        Option<BlockDetails>,
        StorageError,
    > {
        if lookup_spec(c.entries@, n) is Some {
            Ok(lookup_spec(c.entries@, n))
        } else if s.faulty {
            Err(StorageError::Unavailable)
        } else {
            Ok(block_lookup(s.blocks@, n))
        }
    }

    /// The entries after `get`: unchanged but when a finalized block was
    /// fetched on a miss, which is inserted.
    pub open spec fn get_entries_spec(c: BlockDetailsCache, s: StorageEngine, n: u32) -> Seq<
        BlockDetails,
    > {
        if lookup_spec(c.entries@, n) is Some || s.faulty {
            c.entries@
        } else {
            match block_lookup(s.blocks@, n) {
                Option::Some(d) => if d.is_verified {
                    insert_spec(c.entries@, c.capacity as nat, d)
                } else {
                    c.entries@
                },
                Option::None => c.entries@,
            }
        }
    }

    /// How many backing-store queries `get` issues: none on a hit,
    /// exactly one on a miss.
    pub open spec fn get_fetches_spec(c: BlockDetailsCache, s: StorageEngine, n: u32) -> nat {
        if lookup_spec(c.entries@, n) is Some {
            0
        } else {
            1
        }
    }

    /// Read-through lookup of block `block_number`'s details.
    ///
    /// On a hit the store is not touched. On a miss, one backing fetch;
    /// a finalized answer is inserted before returning, a pending answer
    /// or absence is returned uncached.
    #[verifier::loop_isolation(false)]
    pub fn get(&mut self, store: &mut StorageEngine, block_number: BlockNumber) -> (r: Result<
        Option<BlockDetails>,
        StorageError,
    >)
        requires
            old(self).wf(),
            old(store).wf(),
            old(store).query_count < u64::MAX,
        ensures
            final(self).wf(),
            final(store).wf(),
            final(self).capacity == old(self).capacity,
            final(store).blocks@ == old(store).blocks@,
            final(store).txs@ == old(store).txs@,
            final(store).faulty == old(store).faulty,
            r == Self::get_result_spec(*old(self), *old(store), block_number.0),
            final(self).entries@ == Self::get_entries_spec(
                *old(self),
                *old(store),
                block_number.0,
            ),
            final(store).query_count == old(store).query_count + Self::get_fetches_spec(
                *old(self),
                *old(store),
                block_number.0,
            ),
    {
        let n = block_number.0;
        let ghost entries = self.entries@;
        let mut i: usize = 0;
        while i < self.entries.len()
            invariant
                i <= entries.len(),
                forall|k: int| 0 <= k < i ==> entries[k].block_number != n,
            decreases entries.len() - i,
        {
            if self.entries[i].block_number == n {
                proof {
                    assert(has_entry(entries, n));
                    let j = choose|j: int|
                        0 <= j < entries.len() && entries[j].block_number == n;
                    assert(j == i);
                }
                return Ok(Some(self.entries[i]));
            }
            i = i + 1;
        }
        proof {
            if has_entry(entries, n) {
                let j = choose|j: int| 0 <= j < entries.len() && entries[j].block_number == n;
                assert(entries[j].block_number != n);
            }
        }
        match store.get_block(n) {
            Err(e) => Err(e),
            Ok(None) => Ok(None),
            Ok(Some(d)) => {
                proof {
                    let j = choose|j: int|
                        0 <= j < old(store).blocks@.len() && old(store).blocks@[j].block_number
                            == n;
                    assert(d == old(store).blocks@[j]);
                    assert(d.block_number == n);
                }
                if d.is_verified && self.capacity > 0 {
                    if self.entries.len() >= self.capacity {
                        self.entries.remove(0);
                        proof {
                            assert(self.entries@ =~= entries.skip(1));
                        }
                    }
                    self.entries.push(d);
                    proof {
                        assert(final(self).entries@ == Self::get_entries_spec(
                            *old(self),
                            *old(store),
                            n,
                        ));
                    }
                }
                Ok(Some(d))
            },
        }
    }
}

/// Caching a finalized block is idempotent: when block `n` is either
/// already cached or finalized in the store, a `get` followed by a second
/// `get` from the resulting cache returns the same details, and the second
/// call issues no backing-store query at all.
pub proof fn lemma_finalized_get_is_idempotent(
    c: BlockDetailsCache,
    s: StorageEngine,
    c1: BlockDetailsCache,
    s1: StorageEngine,
    n: u32,
)
    requires
        c.wf(),
        s.wf(),
        c.capacity >= 1,
        !s.faulty,
        lookup_spec(c.entries@, n) is Some || (block_lookup(s.blocks@, n) matches Some(d)
            && d.is_verified),
        c1.capacity == c.capacity,
        c1.entries@ == BlockDetailsCache::get_entries_spec(c, s, n),
        s1.blocks@ == s.blocks@,
        s1.faulty == s.faulty,
    ensures
        BlockDetailsCache::get_result_spec(c, s, n) matches Ok(o) && o is Some,
        BlockDetailsCache::get_result_spec(c1, s1, n) == BlockDetailsCache::get_result_spec(
            c,
            s,
            n,
        ),
        BlockDetailsCache::get_fetches_spec(c1, s1, n) == 0,
        BlockDetailsCache::get_entries_spec(c1, s1, n) == c1.entries@,
{
    if lookup_spec(c.entries@, n) is Some {
        assert(c1.entries@ == c.entries@);
    } else {
        let j = choose|j: int| 0 <= j < s.blocks@.len() && s.blocks@[j].block_number == n;
        let d = s.blocks@[j];
        assert(block_lookup(s.blocks@, n) == Some(d));
        assert(d.block_number == n);
        assert(c1.entries@ == insert_spec(c.entries@, c.capacity as nat, d));
        assert(forall|k: int|
            0 <= k < c.entries@.len() ==> c.entries@[k].block_number != n) by {
            if exists|k: int| 0 <= k < c.entries@.len() && c.entries@[k].block_number == n {
                assert(has_entry(c.entries@, n));
            }
        }
        let last = c1.entries@.len() - 1;
        assert(c1.entries@[last] == d);
        assert(has_entry(c1.entries@, n));
        let m = choose|m: int| 0 <= m < c1.entries@.len() && c1.entries@[m].block_number == n;
        assert(m == last) by {
            if m < last {
                if c.entries@.len() < c.capacity {
                    assert(c1.entries@[m] == c.entries@[m]);
                } else {
                    assert(c1.entries@[m] == c.entries@.skip(1)[m]);
                    assert(c.entries@.skip(1)[m] == c.entries@[m + 1]);
                }
            }
        }
        assert(lookup_spec(c1.entries@, n) == Some(d));
    }
}

/// A pending block is returned but never cached: `get` answers with the
/// store's current details, leaves the cache as it was, and a repeated
/// call from the same cache state issues a fresh backing-store query.
pub proof fn lemma_pending_get_does_not_cache(
    c: BlockDetailsCache,
    s: StorageEngine,
    c1: BlockDetailsCache,
    s1: StorageEngine,
    n: u32,
)
    requires
        c.wf(),
        s.wf(),
        !s.faulty,
        lookup_spec(c.entries@, n) is None,
        block_lookup(s.blocks@, n) matches Some(d) && !d.is_verified,
        c1.capacity == c.capacity,
        c1.entries@ == BlockDetailsCache::get_entries_spec(c, s, n),
        s1.blocks@ == s.blocks@,
        s1.faulty == s.faulty,
    ensures
        BlockDetailsCache::get_result_spec(c, s, n) == Ok::<
            Option<BlockDetails>,
            StorageError,
        >(block_lookup(s.blocks@, n)),
        c1.entries@ == c.entries@,
        BlockDetailsCache::get_fetches_spec(c, s, n) == 1,
        BlockDetailsCache::get_fetches_spec(c1, s1, n) == 1,
{
}

/// A block that does not exist yet is absence, not an error, and its
/// absence is not cached either.
pub proof fn lemma_unknown_block_is_absent_not_error(c: BlockDetailsCache, s: StorageEngine, n: u32)
    requires
        c.wf(),
        s.wf(),
        !s.faulty,
        lookup_spec(c.entries@, n) is None,
        block_lookup(s.blocks@, n) is None,
    ensures
        BlockDetailsCache::get_result_spec(c, s, n) == Ok::<Option<BlockDetails>, StorageError>(
            None,
        ),
        BlockDetailsCache::get_entries_spec(c, s, n) == c.entries@,
        BlockDetailsCache::get_fetches_spec(c, s, n) == 1,
{
}

} // verus!
