//! Page-aligned memory pools and the bounded byte views they hand out.
//!
//! A pool does not obtain memory itself. The caller asks the system for as
//! many bytes as [`AlignedMemoryPool::request`] says and hands over what it
//! was granted; the pool then finds its page-aligned base inside that memory
//! and serves every view as a checked subrange of it.

use crate::error::AllocationError;
use crate::page::{
    align_up, is_aligned, is_page_aligned, is_pool_len, is_valid_len, page_ceil, page_floor,
    whole_pages, PAGE_SIZE,
};
use vstd::prelude::*;
use vstd::slice::slice_subrange;

verus! {

broadcast use vstd::slice::group_slice_axioms;

/// How the memory behind a pool is obtained.
#[derive(Clone, Copy, Debug, PartialEq, Eq, Structural)]
pub enum Strategy {
    /// An anonymous private mapping backed by huge pages.
    HugePage,
    /// Memory from an allocator that aligns to the page size itself.
    HeapAligned,
}

/// Memory that the system granted: its bytes, and the address of the first.
#[derive(Debug)]
pub struct Region<'a> {
    pub addr: usize,
    pub bytes: &'a mut [u8],
}

/// `<[u8]>::as_ptr`, read as a number: the address of the first byte of
/// `bytes`.
///
/// Claims nothing of the address: it is whatever the system chose when it
/// granted the memory.
#[verifier::external_body]
fn address_of(bytes: &[u8]) -> (addr: usize) {
    bytes.as_ptr() as usize
}

impl<'a> Region<'a> {
    /// The region that `bytes` occupy, at the address where they lie. The
    /// address is only known when the program runs; what a pool does with
    /// it is proved for every address.
    pub fn of(bytes: &'a mut [u8]) -> (region: Region<'a>)
        ensures
            region.bytes@ == old(bytes)@,
            final(bytes)@ == final(region.bytes)@,
    {
        let addr: usize = address_of(bytes);
        Region { addr, bytes }
    }
}

/// Where granted memory lies: the address of its first byte, and its size.
pub struct Extent {
    pub addr: int,
    pub size: int,
}

/// Where a pool lies: the address of its first usable byte, and its usable
/// length.
pub struct Placement {
    pub base: int,
    pub len: int,
}

/// Where the granted memory lies, if any was granted.
pub open spec fn extent(granted: Option<Region>) -> Option<Extent> {
    match granted {
        Some(region) => Some(Extent { addr: region.addr as int, size: region.bytes@.len() as int }),
        None => None,
    }
}

/// How many bytes to obtain for a pool of `len` bytes under `strategy`.
///
/// A huge-page mapping is asked for one page more than the pool needs, so that
/// a whole pool still fits when the mapping does not start on a page boundary.
pub open spec fn request_len(len: int, strategy: Strategy) -> Result<int, AllocationError> {
    if !is_pool_len(len) {
        Err(AllocationError::InvalidSize)
    } else {
        match strategy {
            Strategy::HeapAligned => Ok(len),
            Strategy::HugePage => if len + PAGE_SIZE <= usize::MAX {
                Ok(len + PAGE_SIZE)
            } else {
                Err(AllocationError::HugePageUnavailable)
            },
        }
    }
}

/// Where the heap pool of `len` bytes lies in `granted`, or the reason why
/// there is none.
///
/// The allocator aligns by itself, so the base is the granted address, and
/// memory that is misaligned or too short counts as a failed allocation.
pub open spec fn heap_outcome(len: int, granted: Option<Extent>) -> Result<
    Placement,
    AllocationError,
> {
    if !is_pool_len(len) {
        Err(AllocationError::InvalidSize)
    } else {
        match granted {
            None => Err(AllocationError::AllocationFailed),
            Some(got) => if is_page_aligned(got.addr) && got.size >= len {
                Ok(Placement { base: got.addr, len })
            } else {
                Err(AllocationError::AllocationFailed)
            },
        }
    }
}

/// Where the huge-page pool of `len` bytes lies in `granted`, or the reason
/// why there is none.
///
/// The base is the first page boundary inside the mapping and the usable
/// length is every whole page from there to the mapping's end. A mapping that
/// leaves fewer than `len` bytes counts as unavailable.
pub open spec fn huge_outcome(len: int, granted: Option<Extent>) -> Result<
    Placement,
    AllocationError,
> {
    if !is_pool_len(len) {
        Err(AllocationError::InvalidSize)
    } else {
        match granted {
            None => Err(AllocationError::HugePageUnavailable),
            Some(got) => {
                let base = page_ceil(got.addr);
                let usable = page_floor(got.addr + got.size - base);
                if base <= usize::MAX && base - got.addr <= got.size && usable >= len {
                    Ok(Placement { base, len: usable })
                } else {
                    Err(AllocationError::HugePageUnavailable)
                }
            },
        }
    }
}

/// Where the pool of `len` bytes lies in `granted` under `strategy`, or the
/// reason why there is none.
pub open spec fn create_outcome(len: int, strategy: Strategy, granted: Option<Extent>) -> Result<
    Placement,
    AllocationError,
> {
    match strategy {
        Strategy::HugePage => huge_outcome(len, granted),
        Strategy::HeapAligned => heap_outcome(len, granted),
    }
}

/// `<[u8] as IndexMut<Range<usize>>>::index_mut`, the mutable subslice
/// `bytes[from..to]`.
///
/// Claims what std documents of range indexing: the subslice starts out as
/// that range of `bytes`, it keeps its length whatever is written through it,
/// and what is written through it lands in that range of `bytes` and nowhere
/// else.
#[verifier::external_body]
fn window_mut<'s>(bytes: &'s mut [u8], from: usize, to: usize) -> (out: &'s mut [u8])
    requires
        from <= to <= old(bytes)@.len(),
    ensures
        out@ == old(bytes)@.subrange(from as int, to as int),
        final(out)@.len() == out@.len(),
        final(bytes)@ == old(bytes)@.subrange(0, from as int) + final(out)@ + old(bytes)@.subrange(
            to as int,
            old(bytes)@.len() as int,
        ),
{
    &mut bytes[from..to]
}

/// A pool on a huge-page mapping.
///
/// The pool borrows the mapping for as long as it lives; to unmap it is the
/// business of whoever mapped it, once the pool is gone.
#[derive(Debug)]
pub struct HugePool<'a> {
    bytes: &'a mut [u8],
    base: usize,
    skip: usize,
    len: usize,
}

impl<'a> HugePool<'a> {
    /// The usable bytes, from the base on.
    pub closed spec fn view(&self) -> Seq<u8> {
        self.bytes@.subrange(self.skip as int, self.skip + self.len)
    }

    pub closed spec fn spec_base(&self) -> usize {
        self.base
    }

    pub closed spec fn spec_len(&self) -> usize {
        self.len
    }

    /// The usable bytes begin `skip` bytes into the mapping and end inside it.
    pub closed spec fn inv(&self) -> bool {
        self.skip + self.len <= self.bytes.len()
    }

    /// The pool's invariant: a page-aligned base and a usable length that is a
    /// positive whole number of pages.
    pub open spec fn wf(&self) -> bool {
        &&& self.inv()
        &&& is_page_aligned(self.base() as int)
        &&& is_pool_len(self.len() as int)
        &&& self@.len() == self.len()
    }

    /// Where the pool lies.
    pub open spec fn placement(&self) -> Placement {
        Placement { base: self.base() as int, len: self.len() as int }
    }

    /// Address of the first usable byte.
    #[verifier::when_used_as_spec(spec_base)]
    pub fn base(&self) -> (r: usize)
        ensures
            r == self.base(),
    {
        self.base
    }

    /// Usable length in bytes.
    #[verifier::when_used_as_spec(spec_len)]
    pub fn len(&self) -> (r: usize)
        ensures
            r == self.len(),
    {
        self.len
    }

    /// How many bytes to map for a pool of `len` bytes.
    pub fn mapping_len(len: usize) -> (r: Result<usize, AllocationError>)
        ensures
            match r {
                Ok(n) => request_len(len as int, Strategy::HugePage) == Ok::<int, AllocationError>(
                    n as int,
                ),
                Err(e) => request_len(len as int, Strategy::HugePage) == Err::<int, AllocationError>(e),
            },
    {
        if !is_valid_len(len) {
            Err(AllocationError::InvalidSize)
        } else if len <= usize::MAX - PAGE_SIZE {
            Ok(len + PAGE_SIZE)
        } else {
            Err(AllocationError::HugePageUnavailable)
        }
    }

    /// Makes the pool of `len` bytes from what the mapping call returned,
    /// `None` standing for a failed mapping.
    pub fn new(len: usize, granted: Option<Region<'a>>) -> (r: Result<HugePool<'a>, AllocationError>)
        ensures
            match r {
                Ok(pool) => {
                    &&& pool.wf()
                    &&& pool.len() >= len
                    &&& huge_outcome(len as int, extent(granted)) == Ok::<Placement, AllocationError>(
                        pool.placement(),
                    )
                    &&& granted matches Some(region) && pool@ == region.bytes@.subrange(
                        pool.base() - region.addr,
                        pool.base() - region.addr + pool.len(),
                    )
                },
                Err(e) => huge_outcome(len as int, extent(granted)) == Err::<
                    Placement,
                    AllocationError,
                >(e),
            },
    {
        if !is_valid_len(len) {
            return Err(AllocationError::InvalidSize);
        }
        match granted {
            None => Err(AllocationError::HugePageUnavailable),
            Some(region) => {
                let Region { addr, bytes } = region;
                let size: usize = bytes.len();
                match align_up(addr) {
                    None => Err(AllocationError::HugePageUnavailable),
                    Some(base) => {
                        let skip: usize = base - addr;
                        if skip > size {
                            return Err(AllocationError::HugePageUnavailable);
                        }
                        let usable: usize = whole_pages(size - skip);
                        if usable < len {
                            return Err(AllocationError::HugePageUnavailable);
                        }
                        Ok(HugePool { bytes, base, skip, len: usable })
                    },
                }
            },
        }
    }

    /// The first `n` usable bytes, read-only.
    pub fn to_slice(&self, n: usize) -> (out: &[u8])
        requires
            self.wf(),
            n <= self.len(),
        ensures
            out@.len() == n,
            out@ == self@.subrange(0, n as int),
    {
        let to: usize = self.skip + n;
        slice_subrange(self.bytes, self.skip, to)
    }

    /// The first `n` usable bytes, writable. What is written through the view
    /// replaces those bytes of the pool and nothing else.
    pub fn to_mut_slice(&mut self, n: usize) -> (out: &mut [u8])
        requires
            old(self).wf(),
            n <= old(self).len(),
        ensures
            out@.len() == n,
            out@ == old(self)@.subrange(0, n as int),
            final(out)@.len() == n,
            final(self).wf(),
            final(self).base() == old(self).base(),
            final(self).len() == old(self).len(),
            final(self)@ == final(out)@ + old(self)@.subrange(n as int, old(self).len() as int),
    {
        let to: usize = self.skip + n;
        window_mut(self.bytes, self.skip, to)
    }
}

/// A pool on memory from the aligned allocator.
///
/// The pool borrows the allocation for as long as it lives; to free it is the
/// business of whoever allocated it, once the pool is gone.
#[derive(Debug)]
pub struct Pool<'a> {
    bytes: &'a mut [u8],
    base: usize,
    len: usize,
}

impl<'a> Pool<'a> {
    /// The usable bytes, from the base on.
    pub closed spec fn view(&self) -> Seq<u8> {
        self.bytes@.subrange(0, self.len as int)
    }

    pub closed spec fn spec_base(&self) -> usize {
        self.base
    }

    pub closed spec fn spec_len(&self) -> usize {
        self.len
    }

    /// The usable bytes end inside the allocation.
    pub closed spec fn inv(&self) -> bool {
        self.len <= self.bytes.len()
    }

    /// The pool's invariant: a page-aligned base and a usable length that is a
    /// positive whole number of pages.
    pub open spec fn wf(&self) -> bool {
        &&& self.inv()
        &&& is_page_aligned(self.base() as int)
        &&& is_pool_len(self.len() as int)
        &&& self@.len() == self.len()
    }

    /// Where the pool lies.
    pub open spec fn placement(&self) -> Placement {
        Placement { base: self.base() as int, len: self.len() as int }
    }

    /// Address of the first usable byte.
    #[verifier::when_used_as_spec(spec_base)]
    pub fn base(&self) -> (r: usize)
        ensures
            r == self.base(),
    {
        self.base
    }

    /// Usable length in bytes.
    #[verifier::when_used_as_spec(spec_len)]
    pub fn len(&self) -> (r: usize)
        ensures
            r == self.len(),
    {
        self.len
    }

    /// How many bytes to allocate, page-aligned, for a pool of `len` bytes.
    pub fn allocation_len(len: usize) -> (r: Result<usize, AllocationError>)
        ensures
            match r {
                Ok(n) => request_len(len as int, Strategy::HeapAligned) == Ok::<
                    int,
                    AllocationError,
                >(n as int),
                Err(e) => request_len(len as int, Strategy::HeapAligned) == Err::<
                    int,
                    AllocationError,
                >(e),
            },
    {
        if is_valid_len(len) {
            Ok(len)
        } else {
            Err(AllocationError::InvalidSize)
        }
    }

    /// Makes the pool of `len` bytes from what the allocator returned, `None`
    /// standing for a failed allocation.
    pub fn new(len: usize, granted: Option<Region<'a>>) -> (r: Result<Pool<'a>, AllocationError>)
        ensures
            match r {
                Ok(pool) => {
                    &&& pool.wf()
                    &&& pool.len() == len
                    &&& heap_outcome(len as int, extent(granted)) == Ok::<Placement, AllocationError>(
                        pool.placement(),
                    )
                    &&& granted matches Some(region) && pool@ == region.bytes@.subrange(
                        0,
                        len as int,
                    )
                },
                Err(e) => heap_outcome(len as int, extent(granted)) == Err::<
                    Placement,
                    AllocationError,
                >(e),
            },
    {
        if !is_valid_len(len) {
            return Err(AllocationError::InvalidSize);
        }
        match granted {
            None => Err(AllocationError::AllocationFailed),
            Some(region) => {
                let Region { addr, bytes } = region;
                if is_aligned(addr) && bytes.len() >= len {
                    Ok(Pool { bytes, base: addr, len })
                } else {
                    Err(AllocationError::AllocationFailed)
                }
            },
        }
    }

    /// The first `n` usable bytes, read-only.
    pub fn to_slice(&self, n: usize) -> (out: &[u8])
        requires
            self.wf(),
            n <= self.len(),
        ensures
            out@.len() == n,
            out@ == self@.subrange(0, n as int),
    {
        slice_subrange(self.bytes, 0, n)
    }

    /// The first `n` usable bytes, writable. What is written through the view
    /// replaces those bytes of the pool and nothing else.
    pub fn to_mut_slice(&mut self, n: usize) -> (out: &mut [u8])
        requires
            old(self).wf(),
            n <= old(self).len(),
        ensures
            out@.len() == n,
            out@ == old(self)@.subrange(0, n as int),
            final(out)@.len() == n,
            final(self).wf(),
            final(self).base() == old(self).base(),
            final(self).len() == old(self).len(),
            final(self)@ == final(out)@ + old(self)@.subrange(n as int, old(self).len() as int),
    {
        window_mut(self.bytes, 0, n)
    }
}

/// A page-aligned memory pool under either strategy.
#[derive(Debug)]
pub enum AlignedMemoryPool<'a> {
    Huge(HugePool<'a>),
    Heap(Pool<'a>),
}

impl<'a> AlignedMemoryPool<'a> {
    /// The usable bytes, from the base on.
    pub open spec fn view(&self) -> Seq<u8> {
        match self {
            AlignedMemoryPool::Huge(pool) => pool@,
            AlignedMemoryPool::Heap(pool) => pool@,
        }
    }

    pub open spec fn spec_base(&self) -> usize {
        match self {
            AlignedMemoryPool::Huge(pool) => pool.base(),
            AlignedMemoryPool::Heap(pool) => pool.base(),
        }
    }

    pub open spec fn spec_len(&self) -> usize {
        match self {
            AlignedMemoryPool::Huge(pool) => pool.len(),
            AlignedMemoryPool::Heap(pool) => pool.len(),
        }
    }

    pub open spec fn spec_strategy(&self) -> Strategy {
        match self {
            AlignedMemoryPool::Huge(_) => Strategy::HugePage,
            AlignedMemoryPool::Heap(_) => Strategy::HeapAligned,
        }
    }

    /// The pool's invariant: a page-aligned base and a usable length that is a
    /// positive whole number of pages.
    pub open spec fn wf(&self) -> bool {
        match self {
            AlignedMemoryPool::Huge(pool) => pool.wf(),
            AlignedMemoryPool::Heap(pool) => pool.wf(),
        }
    }

    /// Where the pool lies.
    pub open spec fn placement(&self) -> Placement {
        Placement { base: self.base() as int, len: self.len() as int }
    }

    /// The strategy the pool was created under.
    #[verifier::when_used_as_spec(spec_strategy)]
    pub fn strategy(&self) -> (r: Strategy)
        ensures
            r == self.strategy(),
    {
        match self {
            AlignedMemoryPool::Huge(_) => Strategy::HugePage,
            AlignedMemoryPool::Heap(_) => Strategy::HeapAligned,
        }
    }

    /// Address of the first usable byte.
    #[verifier::when_used_as_spec(spec_base)]
    pub fn base(&self) -> (r: usize)
        ensures
            r == self.base(),
    {
        match self {
            AlignedMemoryPool::Huge(pool) => pool.base(),
            AlignedMemoryPool::Heap(pool) => pool.base(),
        }
    }

    /// Usable length in bytes.
    #[verifier::when_used_as_spec(spec_len)]
    pub fn len(&self) -> (r: usize)
        ensures
            r == self.len(),
    {
        match self {
            AlignedMemoryPool::Huge(pool) => pool.len(),
            AlignedMemoryPool::Heap(pool) => pool.len(),
        }
    }

    /// How many bytes to obtain from the system for a pool of `len` bytes.
    /// A length that is not a positive whole number of pages is refused here,
    /// before the system is asked for anything.
    pub fn request(len: usize, strategy: Strategy) -> (r: Result<usize, AllocationError>)
        ensures
            match r {
                Ok(n) => request_len(len as int, strategy) == Ok::<int, AllocationError>(n as int),
                Err(e) => request_len(len as int, strategy) == Err::<int, AllocationError>(e),
            },
    {
        match strategy {
            Strategy::HugePage => HugePool::mapping_len(len),
            Strategy::HeapAligned => Pool::allocation_len(len),
        }
    }

    /// Makes the pool of `len` bytes from what the system granted, `None`
    /// standing for a request that the system turned down.
    pub fn create(len: usize, strategy: Strategy, granted: Option<Region<'a>>) -> (r: Result<
        AlignedMemoryPool<'a>,
        AllocationError,
    >)
        ensures
            match r {
                Ok(pool) => {
                    &&& pool.wf()
                    &&& pool.strategy() == strategy
                    &&& pool.len() >= len
                    &&& create_outcome(len as int, strategy, extent(granted)) == Ok::<
                        Placement,
                        AllocationError,
                    >(pool.placement())
                    &&& granted matches Some(region) && pool@ == region.bytes@.subrange(
                        pool.base() - region.addr,
                        pool.base() - region.addr + pool.len(),
                    )
                },
                Err(e) => create_outcome(len as int, strategy, extent(granted)) == Err::<
                    Placement,
                    AllocationError,
                >(e),
            },
    {
        match strategy {
            Strategy::HugePage => match HugePool::new(len, granted) {
                Ok(pool) => Ok(AlignedMemoryPool::Huge(pool)),
                Err(e) => Err(e),
            },
            Strategy::HeapAligned => match Pool::new(len, granted) {
                Ok(pool) => Ok(AlignedMemoryPool::Heap(pool)),
                Err(e) => Err(e),
            },
        }
    }

    /// The first `n` usable bytes, read-only.
    pub fn read_view(&self, n: usize) -> (out: &[u8])
        requires
            self.wf(),
            n <= self.len(),
        ensures
            out@.len() == n,
            out@ == self@.subrange(0, n as int),
    {
        match self {
            AlignedMemoryPool::Huge(pool) => pool.to_slice(n),
            AlignedMemoryPool::Heap(pool) => pool.to_slice(n),
        }
    }

    /// The first `n` usable bytes, writable. What is written through the view
    /// replaces those bytes of the pool and nothing else.
    pub fn write_view(&mut self, n: usize) -> (out: &mut [u8])
        requires
            old(self).wf(),
            n <= old(self).len(),
        ensures
            out@.len() == n,
            out@ == old(self)@.subrange(0, n as int),
            final(out)@.len() == n,
            final(self).wf(),
            final(self).strategy() == old(self).strategy(),
            final(self).base() == old(self).base(),
            final(self).len() == old(self).len(),
            final(self)@ == final(out)@ + old(self)@.subrange(n as int, old(self).len() as int),
    {
        match self {
            AlignedMemoryPool::Huge(pool) => pool.to_mut_slice(n),
            AlignedMemoryPool::Heap(pool) => pool.to_mut_slice(n),
        }
    }
}

/// One page of slack is enough: a mapping of the requested bytes, wherever in
/// the address space it starts, holds a whole pool of `len` bytes behind its
/// first page boundary.
pub proof fn lemma_slack_suffices(len: int, addr: int)
    requires
        is_pool_len(len),
        0 <= addr,
        addr + len + PAGE_SIZE <= usize::MAX,
    ensures
        request_len(len, Strategy::HugePage) == Ok::<int, AllocationError>(len + PAGE_SIZE),
        huge_outcome(len, Some(Extent { addr, size: len + PAGE_SIZE })) matches Ok(placed)
            && placed.len >= len,
{
}

/// A length that is not a positive whole number of pages is refused as
/// `InvalidSize` under both strategies, before and after the system is asked,
/// whatever the system granted.
pub proof fn lemma_invalid_size_always_refused(
    len: int,
    strategy: Strategy,
    granted: Option<Extent>,
)
    requires
        !is_pool_len(len),
    ensures
        request_len(len, strategy) == Err::<int, AllocationError>(AllocationError::InvalidSize),
        create_outcome(len, strategy, granted) == Err::<Placement, AllocationError>(
            AllocationError::InvalidSize,
        ),
{
}

/// Every pool that is created has a page-aligned base and a whole number of
/// pages that is at least what was asked for, under both strategies.
pub proof fn lemma_created_pool_is_aligned(len: int, strategy: Strategy, granted: Option<Extent>)
    requires
        create_outcome(len, strategy, granted) is Ok,
    ensures
        is_pool_len(len),
        create_outcome(len, strategy, granted) matches Ok(placed) && {
            &&& is_page_aligned(placed.base)
            &&& is_pool_len(placed.len)
            &&& placed.len >= len
        },
{
}

/// Under a valid length the heap strategy succeeds exactly when the allocator
/// delivered aligned memory of at least that length, and each strategy names
/// its own error when the system granted nothing.
pub proof fn lemma_when_creation_succeeds(len: int, got: Extent)
    requires
        is_pool_len(len),
    ensures
        heap_outcome(len, Some(got)) is Ok <==> is_page_aligned(got.addr) && got.size >= len,
        heap_outcome(len, None) == Err::<Placement, AllocationError>(
            AllocationError::AllocationFailed,
        ),
        huge_outcome(len, None) == Err::<Placement, AllocationError>(
            AllocationError::HugePageUnavailable,
        ),
{
}

} // verus!
