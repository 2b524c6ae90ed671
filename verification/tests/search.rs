use proximity_alloc::{
    free_regions_after, free_regions_before, AllocError, FreeRegionIter, Probe, Search,
    SearchDirection,
};

const PAGE: usize = 0x1000;

fn upwards(origin: usize, range: std::ops::Range<usize>) -> FreeRegionIter {
    FreeRegionIter::with_page_size(origin, range, SearchDirection::After, PAGE)
}

fn downwards(origin: usize, range: std::ops::Range<usize>) -> FreeRegionIter {
    FreeRegionIter::with_page_size(origin, range, SearchDirection::Before, PAGE)
}

#[test]
fn new_search_starts_at_origin() {
    let search = FreeRegionIter::new(0x5000, 0x1000..0x9000, SearchDirection::After);
    assert_eq!(search.current, 0x5000);
    assert_eq!(search.range, 0x1000..0x9000);
    assert_eq!(search.search, SearchDirection::After);
    assert_eq!(search.page_size, region::page::size());
    assert_eq!(search.pending(), Some(0x5000));
}

#[test]
fn searches_by_direction() {
    let after = free_regions_after(0x5000, 0x1000..0x9000);
    assert_eq!(after.search, SearchDirection::After);
    assert_eq!(after.current, 0x5000);
    assert_eq!(after.range, 0x1000..0x9000);
    assert_eq!(after.page_size, region::page::size());

    let before = free_regions_before(0x5000, 0x1000..0x9000);
    assert_eq!(before.search, SearchDirection::Before);
    assert_eq!(before.current, 0x5000);
    assert_eq!(before.range, 0x1000..0x9000);
    assert_eq!(before.page_size, region::page::size());
}

#[test]
fn free_memory_is_a_candidate() {
    let mut search = upwards(0x5000, 0x1000..0x9000);
    assert!(matches!(search.advance(Probe::Free), Some(Ok(0x5000))));
    assert_eq!(search.current, 0x6000);
    assert!(matches!(search.advance(Probe::Free), Some(Ok(0x6000))));
    assert_eq!(search.current, 0x7000);

    let mut search = downwards(0x5000, 0x1000..0x9000);
    assert!(matches!(search.advance(Probe::Free), Some(Ok(0x5000))));
    assert_eq!(search.current, 0x4000);
}

#[test]
fn mapped_region_is_skipped() {
    let mut search = upwards(0x5000, 0x1000..0x9000);
    assert!(search.advance(Probe::Mapped { lower: 0x3000, upper: 0x8000 }).is_none());
    assert_eq!(search.current, 0x8000);
    assert_eq!(search.pending(), Some(0x8000));

    let mut search = downwards(0x5000, 0x1000..0x9000);
    assert!(search.advance(Probe::Mapped { lower: 0x3000, upper: 0x8000 }).is_none());
    assert_eq!(search.current, 0x2000);
    assert_eq!(search.pending(), Some(0x2000));
}

#[test]
fn failed_query_is_reported_and_passed() {
    let mut search = upwards(0x5000, 0x1000..0x9000);
    let found = search.advance(Probe::Failed(region::Error::ProcfsInput));
    assert!(matches!(
        found,
        Some(Err(AllocError::RegionFailure(region::Error::ProcfsInput)))
    ));
    assert_eq!(search.current, 0x6000);

    let mut search = downwards(0x5000, 0x1000..0x9000);
    let found = search.advance(Probe::Failed(region::Error::NullAddress));
    assert!(matches!(
        found,
        Some(Err(AllocError::RegionFailure(region::Error::NullAddress)))
    ));
    assert_eq!(search.current, 0x4000);
}

#[test]
fn search_ends_outside_the_window() {
    let mut search = upwards(0x8000, 0x1000..0x9000);
    assert!(matches!(search.advance(Probe::Free), Some(Ok(0x8000))));
    assert_eq!(search.current, 0x9000);
    assert_eq!(search.pending(), None);
    assert!(search.advance(Probe::Free).is_none());
    assert_eq!(search.current, 0x9000);

    let mut search = downwards(0x1000, 0x1000..0x9000);
    assert!(matches!(search.advance(Probe::Free), Some(Ok(0x1000))));
    assert_eq!(search.current, 0);
    assert_eq!(search.pending(), None);
}

#[test]
fn search_never_asks_about_the_ends_of_memory() {
    assert_eq!(upwards(0, 0..0x9000).pending(), None);
    assert_eq!(downwards(0, 0..0x9000).pending(), None);
    assert_eq!(upwards(usize::MAX, 0..usize::MAX).pending(), None);
    assert_eq!(upwards(usize::MAX - 1, 0..usize::MAX).pending(), Some(usize::MAX - 1));
    assert_eq!(upwards(1, 0..usize::MAX).pending(), Some(1));
}

#[test]
fn search_outside_its_window_asks_nothing() {
    assert_eq!(upwards(0x9000, 0x1000..0x9000).pending(), None);
    assert_eq!(upwards(0xfff, 0x1000..0x9000).pending(), None);
    let mut search = upwards(0x9000, 0x1000..0x9000);
    assert!(search.advance(Probe::Mapped { lower: 0x9000, upper: 0xa000 }).is_none());
    assert_eq!(search.current, 0x9000);
}

#[test]
fn cursor_stops_at_the_ends_of_memory() {
    let mut search = upwards(usize::MAX - 0x10, 0..usize::MAX);
    assert!(matches!(search.advance(Probe::Free), Some(Ok(_))));
    assert_eq!(search.current, usize::MAX);
    assert_eq!(search.pending(), None);

    let mut search = downwards(0x10, 0..usize::MAX);
    assert!(matches!(search.advance(Probe::Free), Some(Ok(0x10))));
    assert_eq!(search.current, 0);

    let mut search = downwards(0x5000, 0..usize::MAX);
    assert!(search.advance(Probe::Mapped { lower: 0x800, upper: 0x6000 }).is_none());
    assert_eq!(search.current, 0);
}

#[test]
fn sweep_upwards_over_a_small_address_space() {
    // Mapped: [0x5000, 0x7000). Free: the rest of the window.
    let mut search = upwards(0x5000, 0x3000..0x9000);
    let mut asked = Vec::new();
    let mut found = Vec::new();
    while let Some(address) = search.pending() {
        asked.push(address);
        let probe = if (0x5000..0x7000).contains(&address) {
            Probe::Mapped { lower: 0x5000, upper: 0x7000 }
        } else {
            Probe::Free
        };
        if let Some(Ok(candidate)) = search.advance(probe) {
            found.push(candidate);
        }
    }
    assert_eq!(asked, vec![0x5000, 0x7000, 0x8000]);
    assert_eq!(found, vec![0x7000, 0x8000]);
}

#[test]
fn sweep_downwards_over_a_small_address_space() {
    // Mapped: [0x5000, 0x7000). Free: the rest of the window.
    let mut search = downwards(0x6000, 0x2000..0x9000);
    let mut asked = Vec::new();
    let mut found = Vec::new();
    while let Some(address) = search.pending() {
        asked.push(address);
        let probe = if (0x5000..0x7000).contains(&address) {
            Probe::Mapped { lower: 0x5000, upper: 0x7000 }
        } else {
            Probe::Free
        };
        if let Some(Ok(candidate)) = search.advance(probe) {
            found.push(candidate);
        }
    }
    assert_eq!(asked, vec![0x6000, 0x4000, 0x3000, 0x2000]);
    assert_eq!(found, vec![0x4000, 0x3000, 0x2000]);
}

#[test]
fn both_sweeps_start_at_the_origin() {
    let search = Search::new(0x5000, &(0x1000..0x9000));
    assert_eq!(search.after.current, 0x5000);
    assert_eq!(search.after.search, SearchDirection::After);
    assert_eq!(search.after.range, 0x1000..0x9000);
    assert_eq!(search.before.current, 0x5000);
    assert_eq!(search.before.search, SearchDirection::Before);
    assert_eq!(search.before.range, 0x1000..0x9000);
    assert_eq!(search.pending(), Some(0x5000));
}

#[test]
fn downward_sweep_follows_the_upward_one() {
    let mut search = Search {
        after: upwards(0x5000, 0x4000..0x7000),
        before: downwards(0x5000, 0x4000..0x7000),
    };
    let mut asked = Vec::new();
    let mut found = Vec::new();
    while let Some(address) = search.pending() {
        asked.push(address);
        if let Some(Ok(candidate)) = search.advance(Probe::Free) {
            found.push(candidate);
        }
    }
    assert_eq!(asked, vec![0x5000, 0x6000, 0x5000, 0x4000]);
    assert_eq!(found, vec![0x5000, 0x6000, 0x5000, 0x4000]);
    assert!(search.advance(Probe::Free).is_none());
}

#[test]
fn search_steps_the_sweep_that_asked() {
    let mut search = Search {
        after: upwards(0x5000, 0x4000..0x7000),
        before: downwards(0x5000, 0x4000..0x7000),
    };
    assert!(search.advance(Probe::Mapped { lower: 0x3000, upper: 0x8000 }).is_none());
    assert_eq!(search.after.current, 0x8000);
    assert_eq!(search.before.current, 0x5000);
    assert_eq!(search.pending(), Some(0x5000));
    assert!(search.advance(Probe::Mapped { lower: 0x3000, upper: 0x8000 }).is_none());
    assert_eq!(search.after.current, 0x8000);
    assert_eq!(search.before.current, 0x2000);
    assert_eq!(search.pending(), None);
}
