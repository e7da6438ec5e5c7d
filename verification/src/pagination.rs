//! Cursor pagination over the block sequence and over one block's
//! transactions. Both directions return an ascending slice: `Newer` takes
//! the first `limit` items past the cursor, `Older` the `limit` items
//! nearest below it, re-ascended for display.

use vstd::prelude::*;
use crate::error::StorageError;
use crate::store::StorageEngine;
use crate::types::{
    block_info_of, BlockAndTxHash, BlockDetails, BlockInfo, BlockNumber, Paginated,
    PaginationDirection, PaginationQuery, Transaction, TxHash,
};

verus! {

/// The subsequence of `s` whose elements satisfy `p`, in order.
pub open spec fn filter_seq<T>(s: Seq<T>, p: spec_fn(T) -> bool) -> Seq<T>
    decreases s.len(),
{
    if s.len() == 0 {
        Seq::empty()
    } else if p(s.last()) {
        filter_seq(s.drop_last(), p).push(s.last())
    } else {
        filter_seq(s.drop_last(), p)
    }
}

/// The first `n` elements, or all of them when fewer.
pub open spec fn first_n<T>(s: Seq<T>, n: nat) -> Seq<T> {
    if s.len() <= n {
        s
    } else {
        s.take(n as int)
    }
}

/// The last `n` elements, or all of them when fewer.
pub open spec fn last_n<T>(s: Seq<T>, n: nat) -> Seq<T> {
    if s.len() <= n {
        s
    } else {
        s.skip(s.len() - n)
    }
}

/// The page of the block sequence a query selects, before projection to
/// the public shape: past the cursor ascending for `Newer`, nearest below
/// the cursor for `Older`, both slices in ascending order.
pub open spec fn blocks_page_spec(
    blocks: Seq<BlockDetails>,
    from: u32,
    dir: PaginationDirection,
    limit: u32,
) -> Seq<BlockDetails> {
    match dir {
        PaginationDirection::Newer => first_n(
            filter_seq(blocks, |d: BlockDetails| d.block_number > from),
            limit as nat,
        ),
        PaginationDirection::Older => last_n(
            filter_seq(blocks, |d: BlockDetails| d.block_number < from),
            limit as nat,
        ),
    }
}

/// The transactions of block `b`, in their in-block order.
pub open spec fn txs_of_block(txs: Seq<Transaction>, b: u32) -> Seq<Transaction> {
    filter_seq(txs, |t: Transaction| t.block_number == b)
}

/// Index of the first transaction carrying hash `h`, or `s.len()` when
/// none does.
pub open spec fn find_first(s: Seq<Transaction>, h: TxHash) -> int
    decreases s.len(),
{
    if s.len() == 0 {
        0
    } else if s[0].tx_hash == h {
        0
    } else {
        1 + find_first(s.skip(1), h)
    }
}

/// Filtering never lengthens a sequence.
pub proof fn lemma_filter_seq_len<T>(s: Seq<T>, p: spec_fn(T) -> bool)
    ensures
        filter_seq(s, p).len() <= s.len(),
    decreases s.len(),
{
    if s.len() > 0 {
        lemma_filter_seq_len(s.drop_last(), p);
    }
}

/// Every element kept by a filter satisfies its predicate.
pub proof fn lemma_filter_seq_all<T>(s: Seq<T>, p: spec_fn(T) -> bool)
    ensures
        forall|i: int| 0 <= i < filter_seq(s, p).len() ==> p(filter_seq(s, p)[i]),
    decreases s.len(),
{
    if s.len() > 0 {
        lemma_filter_seq_all(s.drop_last(), p);
        let f = filter_seq(s, p);
        let fd = filter_seq(s.drop_last(), p);
        assert forall|i: int| 0 <= i < f.len() implies p(f[i]) by {
            if p(s.last()) {
                if i < fd.len() {
                    assert(f[i] == fd[i]);
                } else {
                    assert(f[i] == s.last());
                }
            } else {
                assert(f[i] == fd[i]);
            }
        }
    }
}

/// Filtering a strictly ascending block sequence keeps it strictly
/// ascending, and below the last element's number.
proof fn lemma_filter_blocks_sorted(s: Seq<BlockDetails>, p: spec_fn(BlockDetails) -> bool)
    requires
        crate::store::blocks_sorted(s),
    ensures
        crate::store::blocks_sorted(filter_seq(s, p)),
        s.len() > 0 ==> forall|i: int|
            0 <= i < filter_seq(s, p).len() ==> filter_seq(s, p)[i].block_number
                <= s.last().block_number,
    decreases s.len(),
{
    if s.len() > 0 {
        assert(crate::store::blocks_sorted(s.drop_last()));
        lemma_filter_blocks_sorted(s.drop_last(), p);
        if s.len() > 1 {
            assert(s.drop_last().last().block_number < s.last().block_number);
        }
    }
}

/// Listing order: a blocks page ascends strictly in block number, and
/// lies strictly past the cursor for `Newer`, strictly below it for
/// `Older` — whichever direction, the slice is presented ascending.
pub proof fn lemma_blocks_page_ordered(
    blocks: Seq<BlockDetails>,
    from: u32,
    dir: PaginationDirection,
    limit: u32,
)
    requires
        crate::store::blocks_sorted(blocks),
    ensures
        crate::store::blocks_sorted(blocks_page_spec(blocks, from, dir, limit)),
        dir == PaginationDirection::Newer ==> forall|i: int|
            0 <= i < blocks_page_spec(blocks, from, dir, limit).len() ==> blocks_page_spec(
                blocks,
                from,
                dir,
                limit,
            )[i].block_number > from,
        dir == PaginationDirection::Older ==> forall|i: int|
            0 <= i < blocks_page_spec(blocks, from, dir, limit).len() ==> blocks_page_spec(
                blocks,
                from,
                dir,
                limit,
            )[i].block_number < from,
{
    let pg = blocks_page_spec(blocks, from, dir, limit);
    match dir {
        PaginationDirection::Newer => {
            let p: spec_fn(BlockDetails) -> bool = |d: BlockDetails| d.block_number > from;
            let f = filter_seq(blocks, p);
            lemma_filter_blocks_sorted(blocks, p);
            lemma_filter_seq_all(blocks, p);
            assert(forall|i: int| 0 <= i < pg.len() ==> pg[i] == f[i]);
        },
        PaginationDirection::Older => {
            let p: spec_fn(BlockDetails) -> bool = |d: BlockDetails| d.block_number < from;
            let f = filter_seq(blocks, p);
            lemma_filter_blocks_sorted(blocks, p);
            lemma_filter_seq_all(blocks, p);
            if f.len() > limit {
                assert(forall|i: int|
                    0 <= i < pg.len() ==> pg[i] == f[f.len() - limit + i]);
            }
        },
    }
}

/// `find_first` is in range, lands on `h`, and nothing before it does.
pub proof fn lemma_find_first(s: Seq<Transaction>, h: TxHash)
    ensures
        0 <= find_first(s, h) <= s.len(),
        find_first(s, h) < s.len() ==> s[find_first(s, h)].tx_hash == h,
        forall|k: int| 0 <= k < find_first(s, h) ==> s[k].tx_hash != h,
    decreases s.len(),
{
    if s.len() > 0 && s[0].tx_hash != h {
        lemma_find_first(s.skip(1), h);
        assert forall|k: int| 0 <= k < find_first(s, h) implies s[k].tx_hash != h by {
            if k > 0 {
                assert(s.skip(1)[k - 1] == s[k]);
            }
        }
    }
}

/// The page of one block's transaction sequence a query selects. The
/// cursor's hash anchors the position; when it does not occur in the
/// block, the page is empty.
pub open spec fn txs_page_spec(
    scope: Seq<Transaction>,
    h: TxHash,
    dir: PaginationDirection,
    limit: u32,
) -> Seq<Transaction> {
    let a = find_first(scope, h);
    if a == scope.len() {
        Seq::empty()
    } else {
        match dir {
            PaginationDirection::Newer => first_n(scope.skip(a + 1), limit as nat),
            PaginationDirection::Older => last_n(scope.take(a), limit as nat),
        }
    }
}

impl StorageEngine {
    /// One backing query answering a page of the block sequence, each
    /// block projected to its public shape, with the total block count.
    #[verifier::loop_isolation(false)]
    pub fn paginate_blocks(&mut self, query: &PaginationQuery<BlockNumber>) -> (r: Result<
        Paginated<BlockInfo, BlockNumber>,
        StorageError,
    >)
        requires
            old(self).wf(),
            old(self).query_count < u64::MAX,
        ensures
            final(self).wf(),
            final(self).blocks@ == old(self).blocks@,
            final(self).txs@ == old(self).txs@,
            final(self).faulty == old(self).faulty,
            final(self).query_count == old(self).query_count + 1,
            old(self).faulty ==> r == Err::<Paginated<BlockInfo, BlockNumber>, StorageError>(
                StorageError::Unavailable,
            ),
            !old(self).faulty ==> (r matches Ok(p) && p.list@ == blocks_page_spec(
                old(self).blocks@,
                query.from.0,
                query.direction,
                query.limit,
            ).map_values(|d: BlockDetails| block_info_of(d)) && p.count == old(
                self,
            ).blocks@.len() && p.limit == query.limit && p.direction == query.direction && p.from
                == query.from && p.list@.len() <= query.limit),
    {
        self.query_count = self.query_count + 1;
        if self.faulty {
            return Err(StorageError::Unavailable);
        }
        let ghost blocks = self.blocks@;
        let from: u32 = query.from.0;
        let ghost pred: spec_fn(BlockDetails) -> bool = match query.direction {
            PaginationDirection::Newer => |d: BlockDetails| d.block_number > from,
            PaginationDirection::Older => |d: BlockDetails| d.block_number < from,
        };
        let mut q: Vec<BlockDetails> = Vec::new();
        let mut i: usize = 0;
        while i < self.blocks.len()
            invariant
                i <= blocks.len(),
                q@ == filter_seq(blocks.take(i as int), pred),
            decreases blocks.len() - i,
        {
            let b = self.blocks[i];
            proof {
                assert(blocks.take(i + 1).drop_last() =~= blocks.take(i as int));
                assert(blocks.take(i + 1).last() == b);
            }
            let keep = match query.direction {
                PaginationDirection::Newer => b.block_number > from,
                PaginationDirection::Older => b.block_number < from,
            };
            proof {
                assert(keep == pred(b));
            }
            if keep {
                q.push(b);
            }
            i = i + 1;
        }
        proof {
            assert(blocks.take(blocks.len() as int) =~= blocks);
        }
        let limit_n: usize = query.limit as usize;
        let window: usize = if limit_n < q.len() {
            limit_n
        } else {
            q.len()
        };
        let lo: usize = match query.direction {
            PaginationDirection::Newer => 0,
            PaginationDirection::Older => q.len() - window,
        };
        let hi: usize = match query.direction {
            PaginationDirection::Newer => window,
            PaginationDirection::Older => q.len(),
        };
        let mut page: Vec<BlockInfo> = Vec::new();
        let mut j: usize = lo;
        while j < hi
            invariant
                lo <= j <= hi <= q@.len(),
                page@.len() == j - lo,
                forall|t: int|
                    0 <= t < page@.len() ==> page@[t] == block_info_of(q@[lo + t]),
            decreases hi - j,
        {
            page.push(BlockInfo::from_details(&q[j]));
            j = j + 1;
        }
        proof {
            assert(page@ =~= blocks_page_spec(
                blocks,
                from,
                query.direction,
                query.limit,
            ).map_values(|d: BlockDetails| block_info_of(d)));
        }
        let count: u32 = self.blocks.len() as u32;
        Ok(
            Paginated {
                list: page,
                count,
                limit: query.limit,
                direction: query.direction,
                from: query.from,
            },
        )
    }

    /// One backing query answering a page of block `query.from.block_number`'s
    /// transactions, anchored at `query.from.tx_hash`, with the block's
    /// total transaction count. No transaction of another block is ever
    /// returned.
    #[verifier::loop_isolation(false)]
    pub fn paginate_block_transactions(&mut self, query: &PaginationQuery<BlockAndTxHash>) -> (r:
        Result<Paginated<Transaction, BlockAndTxHash>, StorageError>)
        requires
            old(self).wf(),
            old(self).query_count < u64::MAX,
        ensures
            final(self).wf(),
            final(self).blocks@ == old(self).blocks@,
            final(self).txs@ == old(self).txs@,
            final(self).faulty == old(self).faulty,
            final(self).query_count == old(self).query_count + 1,
            old(self).faulty ==> r == Err::<Paginated<Transaction, BlockAndTxHash>, StorageError>(
                StorageError::Unavailable,
            ),
            !old(self).faulty ==> (r matches Ok(p) && p.list@ == txs_page_spec(
                txs_of_block(old(self).txs@, query.from.block_number.0),
                query.from.tx_hash,
                query.direction,
                query.limit,
            ) && p.count == txs_of_block(old(self).txs@, query.from.block_number.0).len()
                && p.limit == query.limit && p.direction == query.direction && p.from == query.from
                && p.list@.len() <= query.limit && (forall|k: int|
                0 <= k < p.list@.len() ==> p.list@[k].block_number == query.from.block_number.0)),
    {
        self.query_count = self.query_count + 1;
        if self.faulty {
            return Err(StorageError::Unavailable);
        }
        let ghost txs = self.txs@;
        let b: u32 = query.from.block_number.0;
        let h: TxHash = query.from.tx_hash;
        let ghost pred: spec_fn(Transaction) -> bool = |t: Transaction| t.block_number == b;
        let mut scope: Vec<Transaction> = Vec::new();
        let mut i: usize = 0;
        while i < self.txs.len()
            invariant
                i <= txs.len(),
                scope@ == filter_seq(txs.take(i as int), pred),
                forall|k: int| 0 <= k < scope@.len() ==> scope@[k].block_number == b,
            decreases txs.len() - i,
        {
            let t = self.txs[i];
            proof {
                assert(txs.take(i + 1).drop_last() =~= txs.take(i as int));
                assert(txs.take(i + 1).last() == t);
            }
            if t.block_number == b {
                scope.push(t);
            }
            i = i + 1;
        }
        proof {
            assert(txs.take(txs.len() as int) =~= txs);
            assert(scope@ == txs_of_block(txs, b));
            lemma_filter_seq_len(txs, pred);
        }
        let count: u32 = scope.len() as u32;
        let mut anchor: usize = 0;
        let ghost a = find_first(scope@, h);
        proof {
            lemma_find_first(scope@, h);
        }
        while anchor < scope.len() && !(scope[anchor].tx_hash == h)
            invariant
                anchor <= scope@.len(),
                forall|k: int| 0 <= k < anchor ==> scope@[k].tx_hash != h,
            decreases scope@.len() - anchor,
        {
            anchor = anchor + 1;
        }
        proof {
            if anchor < scope@.len() {
                assert(scope@[anchor as int].tx_hash == h);
                if a < anchor {
                    assert(scope@[a].tx_hash != h);
                }
                if anchor < a {
                    assert(scope@[anchor as int].tx_hash != h);
                }
                assert(a == anchor);
            } else {
                if a < scope@.len() {
                    assert(scope@[a].tx_hash != h);
                }
                assert(a == scope@.len());
            }
        }
        if anchor >= scope.len() {
            return Ok(
                Paginated {
                    list: Vec::new(),
                    count,
                    limit: query.limit,
                    direction: query.direction,
                    from: query.from,
                },
            );
        }
        let limit_n: usize = query.limit as usize;
        let lo: usize;
        let hi: usize;
        match query.direction {
            PaginationDirection::Newer => {
                let rest: usize = scope.len() - (anchor + 1);
                let window: usize = if limit_n < rest {
                    limit_n
                } else {
                    rest
                };
                lo = anchor + 1;
                hi = anchor + 1 + window;
            },
            PaginationDirection::Older => {
                let window: usize = if limit_n < anchor {
                    limit_n
                } else {
                    anchor
                };
                lo = anchor - window;
                hi = anchor;
            },
        }
        let mut page: Vec<Transaction> = Vec::new();
        let mut j: usize = lo;
        while j < hi
            invariant
                lo <= j <= hi <= scope@.len(),
                page@.len() == j - lo,
                forall|t: int| 0 <= t < page@.len() ==> page@[t] == scope@[lo + t],
            decreases hi - j,
        {
            page.push(scope[j]);
            j = j + 1;
        }
        proof {
            assert(page@ =~= txs_page_spec(scope@, h, query.direction, query.limit));
        }
        Ok(
            Paginated {
                list: page,
                count,
                limit: query.limit,
                direction: query.direction,
                from: query.from,
            },
        )
    }
}

} // verus!
