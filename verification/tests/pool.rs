use diskbenchi::error::AllocationError;
use diskbenchi::pool::{AlignedMemoryPool, HugePool, Pool, Region, Strategy};

fn numbered(len: usize) -> Vec<u8> {
    let mut bytes: Vec<u8> = Vec::with_capacity(len);
    let mut i: usize = 0;
    while i < len {
        bytes.push((i % 251) as u8);
        i += 1;
    }
    bytes
}

#[test]
fn heap_pool_base_is_page_aligned() {
    let mut lens: Vec<usize> = vec![4096, 8192, 3 * 4096, 64 * 4096];
    for len in lens.drain(..) {
        let mut memory: Vec<u8> = vec![0u8; len];
        let pool = Pool::new(len, Some(Region { addr: 0x7f00_0000_0000, bytes: &mut memory[..] }))
            .unwrap();
        assert_eq!(pool.base() % 4096, 0);
        assert_eq!(pool.base(), 0x7f00_0000_0000);
        assert_eq!(pool.len(), len);
    }
}

#[test]
fn heap_pool_on_real_memory_serves_aligned_views() {
    let mut memory: Vec<u8> = vec![0u8; 3 * 4096];
    let start: usize = memory.as_ptr() as usize;
    let skip: usize = (4096 - start % 4096) % 4096;
    let pool = Pool::new(8192, Some(Region::of(&mut memory[skip..skip + 8192]))).unwrap();
    assert_eq!(pool.base(), start + skip);
    assert_eq!(pool.base() % 4096, 0);
    assert_eq!(pool.to_slice(4096).as_ptr() as usize, pool.base());
    assert_eq!(pool.to_slice(4096).len(), 4096);
}

#[test]
fn heap_pool_on_real_memory_refuses_a_misaligned_start() {
    let mut memory: Vec<u8> = vec![0u8; 3 * 4096];
    let start: usize = memory.as_ptr() as usize;
    let skip: usize = (4096 - start % 4096) % 4096 + 1;
    let made = Pool::new(4096, Some(Region::of(&mut memory[skip..skip + 4096])));
    assert_eq!(made.err(), Some(AllocationError::AllocationFailed));
}

#[test]
fn region_knows_where_its_bytes_lie() {
    let mut memory: Vec<u8> = numbered(100);
    let start: usize = memory.as_ptr() as usize;
    let region = Region::of(&mut memory[10..60]);
    assert_eq!(region.addr, start + 10);
    assert_eq!(region.bytes.len(), 50);
    assert_eq!(region.bytes[0], 10);
    assert_eq!(region.bytes[49], 59);
}

#[test]
fn heap_pool_refuses_misaligned_memory() {
    let mut memory: Vec<u8> = vec![0u8; 8192];
    let made = Pool::new(4096, Some(Region { addr: 4097, bytes: &mut memory[..] }));
    assert_eq!(made.err(), Some(AllocationError::AllocationFailed));
}

#[test]
fn heap_pool_refuses_short_memory() {
    let mut memory: Vec<u8> = vec![0u8; 4096];
    let made = Pool::new(8192, Some(Region { addr: 4096, bytes: &mut memory[..] }));
    assert_eq!(made.err(), Some(AllocationError::AllocationFailed));
}

#[test]
fn heap_pool_reports_a_failed_allocation() {
    assert_eq!(Pool::new(4096, None).err(), Some(AllocationError::AllocationFailed));
}

#[test]
fn heap_pool_uses_only_the_requested_bytes() {
    let mut memory: Vec<u8> = numbered(3 * 4096);
    let pool = Pool::new(8192, Some(Region { addr: 8192, bytes: &mut memory[..] })).unwrap();
    assert_eq!(pool.len(), 8192);
    assert_eq!(pool.to_slice(8192), &numbered(3 * 4096)[..8192]);
}

#[test]
fn huge_pool_keeps_an_aligned_mapping_whole() {
    let mut memory: Vec<u8> = numbered(12288);
    let pool = HugePool::new(8192, Some(Region { addr: 0x20_0000, bytes: &mut memory[..] }))
        .unwrap();
    assert_eq!(pool.base(), 0x20_0000);
    assert_eq!(pool.len(), 12288);
    assert_eq!(pool.to_slice(12288), &numbered(12288)[..]);
}

#[test]
fn huge_pool_moves_its_base_to_the_next_page() {
    let mut memory: Vec<u8> = numbered(12288);
    let pool = HugePool::new(8192, Some(Region { addr: 4097, bytes: &mut memory[..] })).unwrap();
    assert_eq!(pool.base(), 8192);
    assert_eq!(pool.base() % 4096, 0);
    assert_eq!(pool.len(), 8192);
    assert_eq!(pool.to_slice(8192), &numbered(12288)[4095..4095 + 8192]);
}

#[test]
fn huge_pool_is_aligned_and_large_enough_wherever_the_mapping_starts() {
    let len: usize = 8192;
    let granted: usize = HugePool::mapping_len(len).unwrap();
    let mut addr: usize = 0x1000_0000;
    while addr < 0x1000_0000 + 2 * 4096 {
        let mut memory: Vec<u8> = vec![0u8; granted];
        let pool = HugePool::new(len, Some(Region { addr, bytes: &mut memory[..] })).unwrap();
        assert_eq!(pool.base() % 4096, 0);
        assert!(pool.base() >= addr);
        assert!(pool.base() - addr < 4096);
        assert!(pool.len() >= len);
        assert_eq!(pool.len() % 4096, 0);
        assert!(pool.base() - addr + pool.len() <= granted);
        addr += 97;
    }
}

#[test]
fn huge_pool_on_real_memory_serves_aligned_views() {
    let mut memory: Vec<u8> = vec![0u8; 8192 + 4096];
    let start: usize = memory.as_ptr() as usize;
    let pool = HugePool::new(8192, Some(Region::of(&mut memory[..]))).unwrap();
    assert!(pool.base() >= start);
    assert!(pool.base() - start < 4096);
    assert_eq!(pool.base() % 4096, 0);
    assert_eq!(pool.to_slice(8192).as_ptr() as usize, pool.base());
    assert_eq!(pool.to_slice(8192).as_ptr() as usize % 4096, 0);
}

#[test]
fn huge_pool_without_huge_pages_is_unavailable() {
    assert_eq!(HugePool::new(4096, None).err(), Some(AllocationError::HugePageUnavailable));
    assert_eq!(
        HugePool::new(10 * 1024 * 1024, None).err(),
        Some(AllocationError::HugePageUnavailable)
    );
    assert_eq!(
        AlignedMemoryPool::create(4096, Strategy::HugePage, None).err(),
        Some(AllocationError::HugePageUnavailable)
    );
}

#[test]
fn huge_pool_refuses_a_mapping_that_is_too_small() {
    let mut memory: Vec<u8> = vec![0u8; 8192];
    let made = HugePool::new(8192, Some(Region { addr: 4097, bytes: &mut memory[..] }));
    assert_eq!(made.err(), Some(AllocationError::HugePageUnavailable));
    let mut tiny: Vec<u8> = vec![0u8; 10];
    let made = HugePool::new(4096, Some(Region { addr: 1, bytes: &mut tiny[..] }));
    assert_eq!(made.err(), Some(AllocationError::HugePageUnavailable));
}

#[test]
fn huge_pool_refuses_a_mapping_at_the_end_of_the_address_space() {
    let mut memory: Vec<u8> = vec![0u8; 8192];
    let made = HugePool::new(4096, Some(Region { addr: usize::MAX - 100, bytes: &mut memory[..] }));
    assert_eq!(made.err(), Some(AllocationError::HugePageUnavailable));
}

#[test]
fn invalid_size_is_refused_under_both_strategies() {
    let mut bad: Vec<usize> = vec![0, 1, 100, 4095, 4097, 8191, usize::MAX];
    for len in bad.drain(..) {
        let mut memory: Vec<u8> = vec![0u8; 16384];
        assert_eq!(
            Pool::new(len, Some(Region { addr: 4096, bytes: &mut memory[..] })).err(),
            Some(AllocationError::InvalidSize)
        );
        assert_eq!(
            HugePool::new(len, Some(Region { addr: 4096, bytes: &mut memory[..] })).err(),
            Some(AllocationError::InvalidSize)
        );
        assert_eq!(Pool::new(len, None).err(), Some(AllocationError::InvalidSize));
        assert_eq!(HugePool::new(len, None).err(), Some(AllocationError::InvalidSize));
        assert_eq!(
            AlignedMemoryPool::create(len, Strategy::HeapAligned, None).err(),
            Some(AllocationError::InvalidSize)
        );
        assert_eq!(
            AlignedMemoryPool::create(len, Strategy::HugePage, None).err(),
            Some(AllocationError::InvalidSize)
        );
        assert_eq!(
            AlignedMemoryPool::request(len, Strategy::HeapAligned),
            Err(AllocationError::InvalidSize)
        );
        assert_eq!(
            AlignedMemoryPool::request(len, Strategy::HugePage),
            Err(AllocationError::InvalidSize)
        );
    }
}

#[test]
fn request_adds_one_page_of_slack_for_huge_pages_only() {
    assert_eq!(AlignedMemoryPool::request(8192, Strategy::HugePage), Ok(12288));
    assert_eq!(HugePool::mapping_len(4096), Ok(8192));
    assert_eq!(HugePool::mapping_len(10 * 1024 * 1024), Ok(10 * 1024 * 1024 + 4096));
    assert_eq!(AlignedMemoryPool::request(8192, Strategy::HeapAligned), Ok(8192));
    assert_eq!(Pool::allocation_len(4096), Ok(4096));
}

#[test]
fn request_that_cannot_carry_the_slack_is_unavailable() {
    let largest: usize = usize::MAX - 4095;
    assert_eq!(HugePool::mapping_len(largest), Err(AllocationError::HugePageUnavailable));
    assert_eq!(Pool::allocation_len(largest), Ok(largest));
}

#[test]
fn views_are_as_long_as_asked() {
    let mut memory: Vec<u8> = numbered(12288);
    let mut pool = HugePool::new(8192, Some(Region { addr: 4000, bytes: &mut memory[..] }))
        .unwrap();
    let mut asked: Vec<usize> = vec![0, 1, 4096, 8191, 8192];
    for n in asked.drain(..) {
        assert!(n <= pool.len());
        assert_eq!(pool.to_slice(n).len(), n);
        assert_eq!(pool.to_mut_slice(n).len(), n);
    }
}

#[test]
fn mutable_view_is_a_window_of_the_pool() {
    let mut memory: Vec<u8> = numbered(12288);
    {
        let mut pool = HugePool::new(8192, Some(Region { addr: 4097, bytes: &mut memory[..] }))
            .unwrap();
        let view = pool.to_mut_slice(4096);
        assert_eq!(view.len(), 4096);
        assert_eq!(view[0], (4095 % 251) as u8);
        view[0] = 0xAA;
        view[4095] = 0xBB;
        assert_eq!(pool.to_slice(1)[0], 0xAA);
        assert_eq!(pool.to_slice(4096)[4095], 0xBB);
        assert_eq!(pool.to_slice(4097)[4096], ((4095 + 4096) % 251) as u8);
    }
    assert_eq!(memory[4095], 0xAA);
    assert_eq!(memory[4095 + 4095], 0xBB);
    assert_eq!(memory[4094], (4094 % 251) as u8);
    assert_eq!(memory[4095 + 4096], ((4095 + 4096) % 251) as u8);
}

#[test]
fn heap_mutable_view_is_a_window_of_the_pool() {
    let mut memory: Vec<u8> = numbered(8192);
    {
        let mut pool = Pool::new(8192, Some(Region { addr: 4096, bytes: &mut memory[..] }))
            .unwrap();
        let view = pool.to_mut_slice(100);
        assert_eq!(view.len(), 100);
        view[99] = 0xCC;
        assert_eq!(pool.to_slice(100)[99], 0xCC);
    }
    assert_eq!(memory[99], 0xCC);
    assert_eq!(memory[100], 100);
}

#[test]
fn either_strategy_gives_the_same_interface() {
    let mut first: Vec<u8> = numbered(12288);
    let mut second: Vec<u8> = numbered(12288);
    let mut huge = AlignedMemoryPool::create(
        8192,
        Strategy::HugePage,
        Some(Region { addr: 4097, bytes: &mut first[..] }),
    ).unwrap();
    let mut heap = AlignedMemoryPool::create(
        8192,
        Strategy::HeapAligned,
        Some(Region { addr: 4096, bytes: &mut second[..] }),
    ).unwrap();
    assert_eq!(huge.strategy(), Strategy::HugePage);
    assert_eq!(heap.strategy(), Strategy::HeapAligned);
    assert_eq!(huge.base(), 8192);
    assert_eq!(heap.base(), 4096);
    assert_eq!(huge.len(), 8192);
    assert_eq!(heap.len(), 8192);
    assert_eq!(huge.read_view(3), &[(4095 % 251) as u8, (4096 % 251) as u8, (4097 % 251) as u8][..]);
    assert_eq!(heap.read_view(3), &[0u8, 1, 2][..]);
    huge.write_view(2)[1] = 7;
    heap.write_view(2)[1] = 9;
    assert_eq!(huge.read_view(2)[1], 7);
    assert_eq!(heap.read_view(2)[1], 9);
}
