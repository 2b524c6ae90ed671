use proximity_alloc::{AllocError, PoolScan, Progress, ProximityAllocator};
use slice_pool::sync::SlicePool;
use std::sync::Arc;

fn pool_of(len: usize) -> Arc<SlicePool<u8>> {
    Arc::new(SlicePool::new(vec![0u8; len]))
}

#[test]
fn new_scan_has_asked_nothing() {
    let scan = PoolScan::new(vec![0x1000, 0x3000]);
    assert_eq!(scan.keys, vec![0x1000, 0x3000]);
    assert_eq!(scan.asked, 0);
    assert!(scan.stale.is_empty());
    assert!(!scan.served);
    assert_eq!(scan.pending(), Some(0x1000));
    assert_eq!(PoolScan::new(Vec::new()).pending(), None);
}

#[test]
fn dead_pool_is_noted_as_stale() {
    let mut scan = PoolScan::new(vec![0x1000, 0x3000, 0x5000]);
    assert!(scan.heard(None, 0x10, &(0..usize::MAX)).is_none());
    assert_eq!(scan.asked, 1);
    assert_eq!(scan.stale, vec![0x1000]);
    assert!(!scan.served);
    assert_eq!(scan.pending(), Some(0x3000));

    assert!(scan.heard(None, 0x10, &(0..usize::MAX)).is_none());
    assert_eq!(scan.asked, 2);
    assert_eq!(scan.stale, vec![0x1000, 0x3000]);
    assert_eq!(scan.pending(), Some(0x5000));
}

#[test]
fn live_pool_without_room_is_passed() {
    let mut scan = PoolScan::new(vec![0x1000, 0x3000]);
    assert!(scan.heard(Some(pool_of(0x8)), 0x10, &(0..usize::MAX)).is_none());
    assert_eq!(scan.asked, 1);
    assert!(scan.stale.is_empty());
    assert!(!scan.served);
    assert_eq!(scan.pending(), Some(0x3000));
}

#[test]
fn live_pool_outside_the_window_is_passed() {
    let pool = pool_of(0x20);
    let base = pool.as_ptr() as usize;
    let mut scan = PoolScan::new(vec![0x1000]);
    assert!(scan.heard(Some(pool.clone()), 0x10, &(base + 1..base + 2)).is_none());
    assert_eq!(scan.asked, 1);
    assert!(scan.stale.is_empty());
    assert!(!scan.served);
    assert_eq!(scan.pending(), None);
    // The slice went back: the pool gives its first bytes again.
    assert_eq!(pool.alloc(0x20).unwrap().as_ptr() as usize, base);
}

#[test]
fn pool_that_serves_ends_the_scan() {
    let pool = pool_of(0x20);
    let base = pool.as_ptr() as usize;
    let mut scan = PoolScan::new(vec![0x1000, 0x3000, 0x5000]);
    assert!(scan.heard(None, 0x10, &(0..usize::MAX)).is_none());
    let slice = scan.heard(Some(pool), 0x10, &(0..usize::MAX)).unwrap();
    assert_eq!(slice.len(), 0x10);
    assert_eq!(slice.address(), base);
    assert_eq!(slice.pool_base(), 0x3000);
    assert_eq!(scan.asked, 2);
    assert_eq!(scan.stale, vec![0x1000]);
    assert!(scan.served);
    assert_eq!(scan.pending(), None);

    // Nothing is pending: a further answer changes nothing.
    assert!(scan.heard(None, 0x10, &(0..usize::MAX)).is_none());
    assert_eq!(scan.asked, 2);
    assert_eq!(scan.stale, vec![0x1000]);
    assert!(scan.served);
}

#[test]
fn scan_over_all_pools_ends() {
    let mut scan = PoolScan::new(vec![0x1000]);
    assert!(scan.heard(None, 0x10, &(0..usize::MAX)).is_none());
    assert_eq!(scan.pending(), None);
    assert!(scan.heard(Some(pool_of(0x20)), 0x10, &(0..usize::MAX)).is_none());
    assert_eq!(scan.asked, 1);
    assert!(!scan.served);
}

#[test]
fn scan_asks_the_registered_pools_in_range() {
    let mut allocator = ProximityAllocator::new();
    let mut slices = Vec::new();
    for _ in 0..3 {
        let pool = SlicePool::new(vec![0u8; 0x100]);
        slices.push(allocator.alloc_with_new_pool(pool, 0x100, &(0..usize::MAX)).unwrap());
    }
    let mut bases: Vec<usize> = slices.iter().map(|slice| slice.pool_base()).collect();
    bases.sort();

    let scan = allocator.scan(&(0..usize::MAX));
    assert_eq!(scan.keys, bases);
    assert_eq!(scan.asked, 0);
    assert!(scan.stale.is_empty());

    assert_eq!(allocator.scan(&(bases[1]..bases[2])).keys, vec![bases[1]]);
    assert_eq!(allocator.scan(&(bases[0] + 1..bases[2] + 1)).keys, vec![bases[1], bases[2]]);
    assert!(allocator.scan(&(bases[2] + 1..usize::MAX)).keys.is_empty());
    assert!(allocator.scan(&(0..bases[0])).keys.is_empty());
    assert!(allocator.scan(&(bases[1]..bases[1])).keys.is_empty());
}

#[test]
fn exactly_the_stale_pools_leave() {
    let mut allocator = ProximityAllocator::new();
    let mut slices = Vec::new();
    for _ in 0..3 {
        let pool = SlicePool::new(vec![0u8; 0x100]);
        slices.push(allocator.alloc_with_new_pool(pool, 0x100, &(0..usize::MAX)).unwrap());
    }
    slices.sort_by_key(|slice| slice.pool_base());
    let bases: Vec<usize> = slices.iter().map(|slice| slice.pool_base()).collect();
    // The pool in the middle dies; the two others are alive and full.
    drop(slices.remove(1));

    let (result, scan) = allocator.alloc_with_existing_pool(0x100, &(0..usize::MAX));
    assert!(matches!(result, Err(AllocError::OutOfMemory)));
    assert_eq!(scan.keys, bases);
    assert_eq!(scan.asked, 3);
    assert_eq!(scan.stale, vec![bases[1]]);
    assert!(!scan.served);
    assert_eq!(allocator.pool_count(), 2);
    assert_eq!(allocator.scan(&(0..usize::MAX)).keys, vec![bases[0], bases[2]]);
}

#[test]
fn first_pool_with_room_serves() {
    let mut allocator = ProximityAllocator::new();
    let mut slices = Vec::new();
    for _ in 0..3 {
        let pool = SlicePool::new(vec![0u8; 0x100]);
        slices.push(allocator.alloc_with_new_pool(pool, 0x80, &(0..usize::MAX)).unwrap());
    }
    slices.sort_by_key(|slice| slice.pool_base());
    let bases: Vec<usize> = slices.iter().map(|slice| slice.pool_base()).collect();

    let (result, scan) = allocator.alloc_with_existing_pool(0x80, &(bases[1]..usize::MAX));
    assert_eq!(result.unwrap().pool_base(), bases[1]);
    assert_eq!(scan.keys, vec![bases[1], bases[2]]);
    assert_eq!(scan.asked, 1);
    assert!(scan.stale.is_empty());
    assert!(scan.served);
    assert_eq!(allocator.pool_count(), 3);
}

#[test]
fn allocation_returns_the_record_of_its_scan() {
    let page = region::page::size();
    let mut allocator = ProximityAllocator::new();

    // No pool yet: nothing to ask.
    let (progress, scan) = allocator.allocate(0x100);
    assert!(scan.keys.is_empty());
    assert_eq!(scan.asked, 0);
    let mapping = match progress {
        Progress::Reserve(mapping) => mapping,
        _ => panic!("an empty registry serves nothing"),
    };
    let first = match allocator.mapped(mapping, Some(SlicePool::new(vec![0u8; page]))) {
        Progress::Done(Ok(slice)) => slice,
        _ => panic!("the new pool has room"),
    };

    // The pool serves a second slice: one pool asked, none stale.
    let (progress, scan) = allocator.allocate(0x100);
    assert!(matches!(progress, Progress::Done(Ok(_))));
    drop(progress);
    assert_eq!(scan.keys, vec![first.pool_base()]);
    assert_eq!(scan.asked, 1);
    assert!(scan.stale.is_empty());
    assert!(scan.served);
    assert_eq!(allocator.pool_count(), 1);

    // A whole page does not fit: the pool is asked, alive, and stays.
    let (progress, scan) = allocator.allocate(page);
    assert!(matches!(progress, Progress::Reserve(_)));
    assert_eq!(scan.asked, 1);
    assert!(scan.stale.is_empty());
    assert!(!scan.served);
    assert_eq!(allocator.pool_count(), 1);

    // The pool is dead: it is found stale and leaves.
    let base = first.pool_base();
    drop(first);
    let (progress, scan) = allocator.alloc_with_range(0x100, base, base..base + page);
    assert!(matches!(progress, Progress::Query(_)));
    assert_eq!(scan.keys, vec![base]);
    assert_eq!(scan.stale, vec![base]);
    assert!(!scan.served);
    assert_eq!(allocator.pool_count(), 0);
}
