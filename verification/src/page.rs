//! Page arithmetic: the unit in which pools are sized and aligned.

use vstd::prelude::*;

verus! {

/// Bytes in one page. Direct I/O wants buffer address, buffer length and file
/// offset to be multiples of it.
pub const PAGE_SIZE: usize = 4096;

/// `n` lies on a page boundary.
pub open spec fn is_page_aligned(n: int) -> bool {
    n % (PAGE_SIZE as int) == 0
}

/// `len` is a length a pool can be asked for: a positive whole number of pages.
pub open spec fn is_pool_len(len: int) -> bool {
    len > 0 && is_page_aligned(len)
}

/// The first page boundary at or above `n`.
pub open spec fn page_ceil(n: int) -> int {
    (n + PAGE_SIZE - 1) / (PAGE_SIZE as int) * PAGE_SIZE
}

/// The last page boundary at or below `n`.
pub open spec fn page_floor(n: int) -> int {
    n / (PAGE_SIZE as int) * PAGE_SIZE
}

/// `page_ceil(n)` is a page boundary, lies less than a page above `n`, and no
/// page boundary lies between the two.
pub proof fn lemma_page_ceil_is_least(n: int, m: int)
    ensures
        is_page_aligned(page_ceil(n)),
        n <= page_ceil(n) < n + PAGE_SIZE,
        is_page_aligned(n) ==> page_ceil(n) == n,
        is_page_aligned(m) && m >= n ==> m >= page_ceil(n),
{
}

/// `page_floor(n)` is a page boundary, lies less than a page below `n`, and no
/// page boundary lies between the two.
pub proof fn lemma_page_floor_is_greatest(n: int, m: int)
    ensures
        is_page_aligned(page_floor(n)),
        n - PAGE_SIZE < page_floor(n) <= n,
        is_page_aligned(n) ==> page_floor(n) == n,
        is_page_aligned(m) && m <= n ==> m <= page_floor(n),
{
}

/// Whether `n` lies on a page boundary.
pub fn is_aligned(n: usize) -> (r: bool)
    ensures
        r == is_page_aligned(n as int),
{
    n % PAGE_SIZE == 0
}

/// Whether `len` is a positive whole number of pages.
pub fn is_valid_len(len: usize) -> (r: bool)
    ensures
        r == is_pool_len(len as int),
{
    len > 0 && len % PAGE_SIZE == 0
}

/// Rounds `addr` up to the next page boundary; `None` when that boundary is
/// not an address.
pub fn align_up(addr: usize) -> (r: Option<usize>)
    ensures
        match r {
            Some(a) => a == page_ceil(addr as int),
            None => page_ceil(addr as int) > usize::MAX,
        },
{
    let below: usize = addr / PAGE_SIZE * PAGE_SIZE;
    if below == addr {
        Some(addr)
    } else if below <= usize::MAX - PAGE_SIZE {
        Some(below + PAGE_SIZE)
    } else {
        None
    }
}

/// Rounds `len` down to a whole number of pages.
pub fn whole_pages(len: usize) -> (r: usize)
    ensures
        r == page_floor(len as int),
{
    len / PAGE_SIZE * PAGE_SIZE
}

} // verus!
