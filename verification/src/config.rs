//! The resolved configuration of one benchmark run.

use crate::page::is_pool_len;
use crate::pool::{create_outcome, Extent, Strategy};
use vstd::prelude::*;

verus! {

/// Bytes asked of a huge-page pool when the block is no larger: ten mebibytes.
pub const HUGE_POOL_LEN: usize = 10485760;

/// What the buffer holds when a block is written.
#[derive(Clone, Copy, Debug, PartialEq, Eq, Structural)]
pub enum FillPolicy {
    /// Whatever the pool's memory held: every block is the same.
    Keep,
    /// Fresh pseudo-random bytes before every write, to keep the layers below
    /// from shrinking the blocks by compression or deduplication.
    Random { seed: u64 },
}

/// One benchmark run: what to write, how often, where, and from which memory.
#[derive(Debug)]
pub struct BenchmarkConfig {
    /// Bytes per write.
    pub block_size: usize,
    /// Number of writes.
    pub count: usize,
    /// The file or device to write to.
    pub target_path: String,
    /// Byte offset in the target at which the first block goes.
    pub offset: u64,
    /// How the buffer's memory is obtained.
    pub strategy: Strategy,
    /// What the buffer is filled with.
    pub fill: FillPolicy,
}

/// The length of the pool that serves `block_size` under `strategy`: the block
/// itself from the aligned allocator, and from huge pages the fixed
/// `HUGE_POOL_LEN` or the block, whichever is larger.
pub open spec fn pool_len_for(block_size: usize, strategy: Strategy) -> usize {
    match strategy {
        Strategy::HeapAligned => block_size,
        Strategy::HugePage => if block_size <= HUGE_POOL_LEN {
            HUGE_POOL_LEN
        } else {
            block_size
        },
    }
}

/// The pool made for a valid block size holds a whole block, whatever the
/// strategy and whatever memory it was made from: a view of one block is
/// always within the pool.
pub proof fn lemma_pool_holds_a_block(
    block_size: usize,
    strategy: Strategy,
    granted: Option<Extent>,
)
    requires
        is_pool_len(block_size as int),
        create_outcome(pool_len_for(block_size, strategy) as int, strategy, granted) is Ok,
    ensures
        is_pool_len(pool_len_for(block_size, strategy) as int),
        create_outcome(
            pool_len_for(block_size, strategy) as int,
            strategy,
            granted,
        ) matches Ok(placed) && placed.len >= block_size,
{
    crate::pool::lemma_created_pool_is_aligned(
        pool_len_for(block_size, strategy) as int,
        strategy,
        granted,
    );
}

impl BenchmarkConfig {
    /// Builds the configuration from what a command line gives: a missing
    /// offset is zero, the strategy is the aligned allocator unless huge pages
    /// are asked for, and the buffer is filled with random bytes only when a
    /// seed is given.
    pub fn resolve(
        block_size: usize,
        count: usize,
        target_path: String,
        offset: Option<u64>,
        huge_pages: bool,
        seed: Option<u64>,
    ) -> (config: BenchmarkConfig)
        ensures
            config.block_size == block_size,
            config.count == count,
            config.target_path == target_path,
            config.offset == (match offset {
                Some(at) => at,
                None => 0,
            }),
            config.strategy == (if huge_pages {
                Strategy::HugePage
            } else {
                Strategy::HeapAligned
            }),
            config.fill == (match seed {
                Some(value) => FillPolicy::Random { seed: value },
                None => FillPolicy::Keep,
            }),
    {
        BenchmarkConfig {
            block_size,
            count,
            target_path,
            offset: match offset {
                Some(at) => at,
                None => 0,
            },
            strategy: if huge_pages {
                Strategy::HugePage
            } else {
                Strategy::HeapAligned
            },
            fill: match seed {
                Some(value) => FillPolicy::Random { seed: value },
                None => FillPolicy::Keep,
            },
        }
    }

    /// The block size is a positive whole number of pages.
    pub open spec fn valid(&self) -> bool {
        is_pool_len(self.block_size as int)
    }

    /// Whether the block size is a positive whole number of pages.
    pub fn is_valid(&self) -> (r: bool)
        ensures
            r == self.valid(),
    {
        crate::page::is_valid_len(self.block_size)
    }

    /// The length of the pool to create for this run. For a valid
    /// configuration it is a valid pool length and holds a whole block.
    pub fn pool_len(&self) -> (len: usize)
        ensures
            len == pool_len_for(self.block_size, self.strategy),
            len >= self.block_size,
            self.valid() ==> is_pool_len(len as int),
    {
        match self.strategy {
            Strategy::HeapAligned => self.block_size,
            Strategy::HugePage => if self.block_size <= HUGE_POOL_LEN {
                HUGE_POOL_LEN
            } else {
                self.block_size
            },
        }
    }

    /// Whether the buffer is refilled before every write.
    pub fn refills(&self) -> (r: bool)
        ensures
            r == (self.fill is Random),
    {
        match self.fill {
            FillPolicy::Keep => false,
            FillPolicy::Random { .. } => true,
        }
    }
}

} // verus!
