//! A library for allocating memory in proximity.
//!
//! The allocator hands out byte slices of memory maps whose addresses lie
//! inside a window around an origin. It keeps a registry of the pools it has
//! made, reuses a pool whose base address lies inside the window, and asks for
//! a new memory map where none can serve.
//!
//! The library decides; it does not talk to the operating system. Where an
//! allocation needs a query of the address space or a new memory map, it
//! returns a `Progress` that says so, and the caller reports the outcome.
use crate::pool::{downgrade, pool_base, upgrade, PoolRef};
use crate::scan::{among, heard_as, lemma_step_keeps_sound, PoolScanView};
use crate::registry::{ascending, Registry};
use crate::margin::distance;
use crate::util::within;
use slice_pool::sync::SlicePool;
use std::ops::Range;
use std::sync::Arc;
use vstd::prelude::*;
use vstd::set_lib::lemma_len_subset;

pub mod error;
pub mod margin;
pub mod pool;
pub mod registry;
pub mod reserve;
pub mod scan;
pub mod search;
pub mod util;

pub use crate::error::AllocError;
pub use crate::margin::Margin;
pub use crate::pool::ProximityBox;
pub use crate::reserve::{Mapping, Progress, Querying, Search};
pub use crate::scan::{Heard, PoolScan};
pub use crate::search::{
    free_regions_after, free_regions_before, FreeRegionIter, Probe, SearchDirection,
};
pub use crate::util::RangeContains;

verus! {

/// Options the memory map is created with.
#[derive(Clone, Copy, Debug, PartialEq, Eq, Structural)]
pub enum MapOption {
    /// The memory should be readable.
    MapReadable,
    /// The memory should be writable.
    MapWritable,
    /// The memory should be executable.
    MapExecutable,
    /// Create a map for a specific address range.
    MapAddr(usize),
    /// Create a memory mapping for a file with a given fd.
    MapFd(i32),
    /// When using `MapFd`, the start of the map is this many bytes from the
    /// start of the file.
    MapOffset(usize),
    /// The flags passed to the mapping call, in place of the default ones.
    MapNonStandardFlags(i32),
}

/// The window of an allocation regardless of proximity: every address but the
/// last.
pub open spec fn anywhere() -> Range<usize> {
    Range { start: 0, end: usize::MAX }
}

/// How the registry `after` a search through existing pools relates to the
/// registry `before`: no pool has come, and every pool that has gone had its
/// base address inside `range`.
pub open spec fn pruned(before: Seq<usize>, after: Seq<usize>, range: Range<usize>) -> bool {
    &&& forall|key: usize| after.contains(key) ==> before.contains(key)
    &&& forall|key: usize| before.contains(key) && !within(range, key) ==> after.contains(key)
}

/// Whether no pool of the registry `pools` has its base address inside
/// `range`.
pub open spec fn vacant(pools: Seq<usize>, range: Range<usize>) -> bool {
    forall|key: usize| pools.contains(key) ==> !within(range, key)
}

/// How the registry `after` the arrival of a pool at `base` relates to the
/// registry `before`: it holds `base` and, besides, what it held.
pub open spec fn registered(before: Seq<usize>, after: Seq<usize>, base: usize) -> bool {
    forall|key: usize| after.contains(key) <==> before.contains(key) || key == base
}

/// Whether `slice` is what an allocation of `size` bytes inside `range` may
/// hand out: it has that many bytes and starts inside `range`.
pub open spec fn fits(slice: ProximityBox, size: usize, range: Range<usize>) -> bool {
    slice@.len() == size && within(range, slice.address())
}

/// What a new pool makes of an allocation of `size` bytes inside `range`, and
/// of the registry. A slice of the pool that fits settles the allocation, and
/// the pool is registered; otherwise the allocation is out of memory, and the
/// registry is as it was.
pub open spec fn housed(
    before: Seq<usize>,
    after: Seq<usize>,
    size: usize,
    range: Range<usize>,
    result: Result<ProximityBox, AllocError>,
) -> bool {
    match result {
        Ok(slice) => fits(slice, size, range) && registered(before, after, slice.pool_base()),
        Err(error) => error is OutOfMemory && after == before,
    }
}

/// What the existing pools make of an allocation of `size` bytes inside
/// `range`, and of the registry. A slice that fits comes from a registered
/// pool with its base address inside `range`; no such pool, no slice. Pools
/// leave the registry only, and only from inside `range`.
pub open spec fn reused(
    before: Seq<usize>,
    after: Seq<usize>,
    size: usize,
    range: Range<usize>,
    result: Option<ProximityBox>,
) -> bool {
    &&& pruned(before, after, range)
    &&& result matches Some(slice) ==> {
        &&& fits(slice, size, range)
        &&& within(range, slice.pool_base())
        &&& after.contains(slice.pool_base())
    }
    &&& vacant(before, range) ==> result is None && after == before
}

/// Whether `keys` are the pools that a scan inside `range` has to ask: the
/// base addresses of the registry `pools` that lie inside `range`, each once,
/// in ascending order.
pub open spec fn candidates(keys: Seq<usize>, pools: Seq<usize>, range: Range<usize>) -> bool {
    &&& ascending(keys)
    &&& forall|key: usize| keys.contains(key) <==> pools.contains(key) && within(range, key)
}

/// What a scan through the registry `pools` for `size` bytes inside `range`
/// has come to, by its record `scan`. The scan had the registered pools
/// inside `range` to ask, in ascending order, and is over: either the pool
/// asked last gave `slice`, which fits, or every pool was asked and there is
/// no slice. The pools noted as stale are among those asked before.
pub open spec fn scanned(
    pools: Seq<usize>,
    size: usize,
    range: Range<usize>,
    scan: PoolScanView,
    slice: Option<ProximityBox>,
) -> bool {
    &&& candidates(scan.keys, pools, range)
    &&& scan.sound()
    &&& scan.over()
    &&& slice is Some <==> scan.served
    &&& slice matches Some(found) ==> fits(found, size, range) && found.pool_base()
        == scan.keys[scan.asked - 1]
}

/// How the registry `after` a scan relates to the registry `before`: the
/// pools that the scan noted as stale have left, and no other.
pub open spec fn cleared(before: Seq<usize>, after: Seq<usize>, stale: Seq<usize>) -> bool {
    &&& forall|key: usize|
        #![trigger after.contains(key)]
        #![trigger before.contains(key)]
        after.contains(key) <==> before.contains(key) && !stale.contains(key)
    &&& stale.len() == 0 ==> after == before
}

/// A scan whose stale pools have left the registry has reused the existing
/// pools.
pub proof fn lemma_scan_reuses(
    before: Seq<usize>,
    after: Seq<usize>,
    size: usize,
    range: Range<usize>,
    scan: PoolScanView,
    slice: Option<ProximityBox>,
)
    requires
        scanned(before, size, range, scan, slice),
        cleared(before, after, scan.stale),
    ensures
        reused(before, after, size, range, slice),
{
    assert forall|key: usize| scan.stale.contains(key) implies scan.keys.contains(key) && (
    slice matches Some(found) ==> key != found.pool_base()) by {
        let i = choose|i: int| 0 <= i < scan.stale.len() && scan.stale[i] == key;
        assert(among(scan.keys, scan.passed(), scan.stale[i]));
        let j = choose|j: int|
            0 <= j < scan.passed() && j < scan.keys.len() && #[trigger] scan.keys[j] == key;
        if slice is Some {
            assert(scan.keys[j] < scan.keys[scan.asked - 1]);
        }
    }
    if slice is Some {
        assert(scan.keys.contains(scan.keys[scan.asked - 1]));
    }
    if vacant(before, range) {
        if scan.keys.len() > 0 {
            assert(scan.keys.contains(scan.keys[0]));
        }
        if scan.stale.len() > 0 {
            assert(scan.stale.contains(scan.stale[0]));
        }
    }
}

/// After a scan, every pool that it noted as stale is gone from the registry,
/// and every pool that is gone was noted as stale and had its base address
/// inside the range of the scan.
pub proof fn lemma_stale_pools_leave(
    before: Seq<usize>,
    after: Seq<usize>,
    size: usize,
    range: Range<usize>,
    scan: PoolScanView,
    slice: Option<ProximityBox>,
    key: usize,
)
    requires
        scanned(before, size, range, scan, slice),
        cleared(before, after, scan.stale),
    ensures
        scan.stale.contains(key) ==> before.contains(key) && !after.contains(key),
        before.contains(key) && !after.contains(key) ==> scan.stale.contains(key) && within(
            range,
            key,
        ),
{
    if scan.stale.contains(key) {
        let i = choose|i: int| 0 <= i < scan.stale.len() && scan.stale[i] == key;
        assert(among(scan.keys, scan.passed(), scan.stale[i]));
        let j = choose|j: int|
            0 <= j < scan.passed() && j < scan.keys.len() && #[trigger] scan.keys[j] == key;
        assert(scan.keys.contains(key));
    }
}

/// A scan that ends without a slice has asked every registered pool with a
/// base address inside its range.
pub proof fn lemma_scan_without_slice_asked_all(
    pools: Seq<usize>,
    size: usize,
    range: Range<usize>,
    scan: PoolScanView,
    key: usize,
)
    requires
        scanned(pools, size, range, scan, None),
        pools.contains(key),
        within(range, key),
    ensures
        scan.asked == scan.keys.len(),
        among(scan.keys, scan.asked, key),
{
    assert(scan.keys.contains(key));
    let j = choose|j: int| 0 <= j < scan.keys.len() && scan.keys[j] == key;
    assert(scan.keys[j] == key);
}

/// The pool that serves is the first in ascending order of base address
/// that gives a slice: every registered pool inside the range with a lower
/// base address was asked before it and gave none.
pub proof fn lemma_serving_pool_is_first(
    pools: Seq<usize>,
    size: usize,
    range: Range<usize>,
    scan: PoolScanView,
    slice: ProximityBox,
    key: usize,
)
    requires
        scanned(pools, size, range, scan, Some(slice)),
        pools.contains(key),
        within(range, key),
        key < slice.pool_base(),
    ensures
        among(scan.keys, scan.passed(), key),
{
    assert(scan.keys.contains(key));
    let j = choose|j: int| 0 <= j < scan.keys.len() && scan.keys[j] == key;
    if j >= scan.asked - 1 {
        assert(scan.keys[scan.asked - 1] <= scan.keys[j]);
    }
    assert(scan.keys[j] == key);
}

/// A slice that fits the window of a distance `d` around `origin` starts no
/// further than `d` from `origin`.
pub proof fn lemma_fit_is_near(slice: ProximityBox, size: usize, origin: usize, d: usize)
    requires
        fits(slice, size, d.window(origin)),
    ensures
        distance(slice.address(), origin) <= d,
{
}

/// The registry holds only pools that slices were handed out of, each once:
/// if that held `before` an allocation, with `bases` the base addresses of
/// the pools of all slices handed out until then, it holds `after` the
/// allocation has handed out `slice`, from a pool old or new. The registry
/// is then no larger than the number of those pools.
pub proof fn lemma_registry_counts_pools(
    before: Seq<usize>,
    after: Seq<usize>,
    size: usize,
    range: Range<usize>,
    slice: ProximityBox,
    bases: Set<usize>,
)
    requires
        ascending(after),
        bases.finite(),
        forall|key: usize| before.contains(key) ==> bases.contains(key),
        reused(before, after, size, range, Some(slice)) || housed(
            before,
            after,
            size,
            range,
            Ok(slice),
        ),
    ensures
        forall|key: usize| after.contains(key) ==> bases.insert(slice.pool_base()).contains(key),
        after.len() <= bases.insert(slice.pool_base()).len(),
{
    let grown = bases.insert(slice.pool_base());
    assert forall|key: usize| after.contains(key) implies grown.contains(key) by {
        if !before.contains(key) {
            assert(key == slice.pool_base());
        }
    }
    assert(after.no_duplicates());
    after.unique_seq_to_set();
    assert(after.to_set().subset_of(grown));
    lemma_len_subset(after.to_set(), grown);
}

/// A memory allocator based on proximity.
pub struct ProximityAllocator {
    pools: Registry,
    options: Vec<MapOption>,
}

impl ProximityAllocator {
    /// The base addresses of the registered pools, in ascending order.
    pub closed spec fn pools(&self) -> Seq<usize> {
        self.pools.keys()
    }

    /// The options that every memory map is created with.
    pub closed spec fn options(&self) -> Seq<MapOption> {
        self.options@
    }

    /// The registry holds its pools in strictly ascending order of base
    /// address, each address once.
    pub open spec fn wf(&self) -> bool {
        ascending(self.pools())
    }

    /// Constructs a new allocator with read/write/execute properties.
    pub fn new() -> (r: Self)
        ensures
            r.wf(),
            r.pools() == Seq::<usize>::empty(),
            r.options() == seq![
                MapOption::MapReadable,
                MapOption::MapWritable,
                MapOption::MapExecutable,
            ],
    {
        Self::with_options(
            vec![MapOption::MapReadable, MapOption::MapWritable, MapOption::MapExecutable],
        )
    }

    /// Constructs a new memory pool with the specified options.
    pub fn with_options(options: Vec<MapOption>) -> (r: Self)
        ensures
            r.wf(),
            r.pools() == Seq::<usize>::empty(),
            r.options() == options@,
    {
        let pools = Registry::new();
        ProximityAllocator { pools, options }
    }

    /// The number of registered pools.
    pub fn pool_count(&self) -> (r: usize)
        ensures
            r == self.pools().len(),
    {
        self.pools.len()
    }

    /// The options for a memory map: those of the allocator, followed by the
    /// address where the map is to stand at a fixed one.
    pub fn reserve_options(&self, address: Option<usize>) -> (r: Vec<MapOption>)
        ensures
            r@ == self.options() + match address {
                Some(address) => seq![MapOption::MapAddr(address)],
                None => seq![],
            },
    {
        let mut options: Vec<MapOption> = Vec::new();
        let mut index: usize = 0;
        while index < self.options.len()
            invariant
                index <= self.options@.len(),
                options@ == self.options@.subrange(0, index as int),
            decreases self.options.len() - index,
        {
            options.push(self.options[index]);
            index += 1;
        }
        assert(self.options@.subrange(0, index as int) == self.options@);
        if let Some(address) = address {
            options.push(MapOption::MapAddr(address));
        }
        options
    }

    /// Allocates memory regardless of proximity.
    ///
    /// The existing pools are scanned first: a slice of one of them settles
    /// the allocation, and the pools found dead leave the registry. Where no
    /// pool serves, the allocation waits for a memory map at any address.
    /// Returns the state of the allocation and the record of the scan.
    pub fn allocate(&mut self, size: usize) -> (r: (Progress, PoolScan))
        requires
            old(self).wf(),
            size > 0,
        ensures
            final(self).wf(),
            final(self).options() == old(self).options(),
            cleared(old(self).pools(), final(self).pools(), r.1@.stale),
            match r.0 {
                Progress::Done(Ok(slice)) => scanned(
                    old(self).pools(),
                    size,
                    anywhere(),
                    r.1@,
                    Some(slice),
                ),
                _ => {
                    &&& scanned(old(self).pools(), size, anywhere(), r.1@, None)
                    &&& r.0.reserves(size, anywhere(), None, None)
                },
            },
    {
        let range = 0..usize::MAX;
        assert(range == anywhere());
        let (found, scan) = self.alloc_with_existing_pool(size, &range);
        match found {
            Ok(slice) => (Progress::Done(Ok(slice)), scan),
            Err(_) => (Progress::anywhere(size, range), scan),
        }
    }

    /// Allocates proximity memory within a margin.
    ///
    /// The window is the margin's around `origin`; the rest is as in
    /// `alloc_with_range`.
    pub fn alloc_with_margin<M: Margin>(&mut self, size: usize, origin: usize, margin: M) -> (r: (
        Progress,
        PoolScan,
    ))
        requires
            old(self).wf(),
            size > 0,
            within(margin.window(origin), origin),
        ensures
            final(self).wf(),
            final(self).options() == old(self).options(),
            cleared(old(self).pools(), final(self).pools(), r.1@.stale),
            match r.0 {
                Progress::Done(Ok(slice)) => scanned(
                    old(self).pools(),
                    size,
                    margin.window(origin),
                    r.1@,
                    Some(slice),
                ),
                _ => {
                    &&& scanned(old(self).pools(), size, margin.window(origin), r.1@, None)
                    &&& r.0.begins(size, origin, margin.window(origin))
                },
            },
    {
        self.alloc_with_range(size, origin, margin.as_range(origin))
    }

    /// Allocates proximity memory within an address range.
    ///
    /// The existing pools with a base address in `range` are scanned first:
    /// a slice of one of them settles the allocation, if the slice itself
    /// starts in `range`, and the pools found dead leave the registry. Where
    /// no pool serves, a search for a free region begins at `origin`: the
    /// allocation waits for the answer to its first question, or is over with
    /// `OutOfMemory` where `origin` cannot be asked about. Returns the state
    /// of the allocation and the record of the scan.
    pub fn alloc_with_range(&mut self, size: usize, origin: usize, range: Range<usize>) -> (r: (
        Progress,
        PoolScan,
    ))
        requires
            old(self).wf(),
            size > 0,
            within(range, origin),
        ensures
            final(self).wf(),
            final(self).options() == old(self).options(),
            cleared(old(self).pools(), final(self).pools(), r.1@.stale),
            match r.0 {
                Progress::Done(Ok(slice)) => scanned(
                    old(self).pools(),
                    size,
                    range,
                    r.1@,
                    Some(slice),
                ),
                _ => {
                    &&& scanned(old(self).pools(), size, range, r.1@, None)
                    &&& r.0.begins(size, origin, range)
                },
            },
    {
        let (found, scan) = self.alloc_with_existing_pool(size, &range);
        match found {
            Ok(slice) => (Progress::Done(Ok(slice)), scan),
            Err(_) => {
                let search = Search::new(origin, &range);
                (Progress::resume(size, range, search), scan)
            },
        }
    }

    /// Takes the outcome of the map request that `mapping` waits for: the
    /// pool made of the new memory map, or nothing where the operating system
    /// refused.
    ///
    /// A pool settles the allocation as `alloc_with_new_pool` says. A refusal
    /// lets the allocation go on as `Mapping::failed` says.
    pub fn mapped(&mut self, mapping: Mapping, outcome: Option<SlicePool<u8>>) -> (r: Progress)
        requires
            old(self).wf(),
        ensures
            final(self).wf(),
            final(self).options() == old(self).options(),
            match outcome {
                Some(_) => r matches Progress::Done(result) && housed(
                    old(self).pools(),
                    final(self).pools(),
                    mapping.spec_size(),
                    mapping.spec_range(),
                    result,
                ),
                None => mapping.gives_up(r) && final(self).pools() == old(self).pools(),
            },
    {
        match outcome {
            Some(pool) => {
                let result = self.alloc_with_new_pool(pool, mapping.size(), mapping.range());
                Progress::Done(result)
            },
            None => mapping.failed(),
        }
    }

    /// Looks for a slice of `size` bytes in the registered pools whose base
    /// address lies in `range`, in ascending order of base address, and
    /// returns the first slice that a pool gives and that starts in `range`,
    /// with the record of the scan. The pools that the scan found dead leave
    /// the registry, and no other.
    pub fn alloc_with_existing_pool(&mut self, size: usize, range: &Range<usize>) -> (r: (
        Result<ProximityBox, AllocError>,
        PoolScan,
    ))
        requires
            old(self).wf(),
            size > 0,
        ensures
            final(self).wf(),
            final(self).options() == old(self).options(),
            cleared(old(self).pools(), final(self).pools(), r.1@.stale),
            match r.0 {
                Ok(slice) => scanned(old(self).pools(), size, *range, r.1@, Some(slice)),
                Err(error) => {
                    &&& error is OutOfMemory
                    &&& scanned(old(self).pools(), size, *range, r.1@, None)
                },
            },
    {
        let (allocation, scan) = self.try_pools(size, range);

        if !scan.stale.is_empty() {
            self.prune(&scan.stale);
        }

        match allocation {
            Some(slice) => (Ok(slice), scan),
            None => (Err(AllocError::OutOfMemory), scan),
        }
    }

    /// The record of a scan inside `range` that has asked no pool yet: it has
    /// the registered pools with a base address inside `range` to ask, in
    /// ascending order.
    pub fn scan(&self, range: &Range<usize>) -> (r: PoolScan)
        requires
            self.wf(),
        ensures
            r@ == PoolScanView::start(r@.keys),
            candidates(r@.keys, self.pools(), *range),
    {
        let first = self.pools.lower_bound(range.start);
        let mut keys: Vec<usize> = Vec::new();
        let mut index = first;
        while index < self.pools.len() && self.pools.key(index) < range.end
            invariant
                self.pools.wf(),
                first <= index <= self.pools.keys().len(),
                forall|i: int| 0 <= i < first ==> self.pools.keys()[i] < range.start,
                forall|i: int|
                    first <= i < self.pools.keys().len() ==> self.pools.keys()[i] >= range.start,
                keys@ == self.pools.keys().subrange(first as int, index as int),
                forall|i: int| first <= i < index ==> self.pools.keys()[i] < range.end,
            decreases self.pools.keys().len() - index,
        {
            keys.push(self.pools.key(index));
            index += 1;
        }
        proof {
            let pools = self.pools.keys();
            assert forall|key: usize| keys@.contains(key) implies pools.contains(key) && within(
                *range,
                key,
            ) by {
                let i = choose|i: int| 0 <= i < keys@.len() && keys@[i] == key;
                assert(pools[first + i] == key);
            }
            assert forall|key: usize|
                pools.contains(key) && within(*range, key) implies keys@.contains(key) by {
                let i = choose|i: int| 0 <= i < pools.len() && pools[i] == key;
                if i >= index {
                    assert(pools[index as int] <= pools[i]);
                }
                assert(keys@[i - first] == key);
            }
        }
        PoolScan::new(keys)
    }

    /// Asks the registered pools whose base address lies in `range` for a
    /// slice of `size` bytes, one after the other in ascending order of base
    /// address, until one gives a slice that starts in `range`. Returns that
    /// slice, if there is one, and the record of the scan.
    pub fn try_pools(&self, size: usize, range: &Range<usize>) -> (r: (
        Option<ProximityBox>,
        PoolScan,
    ))
        requires
            self.wf(),
            size > 0,
        ensures
            scanned(self.pools(), size, *range, r.1@, r.0),
    {
        let mut scan = self.scan(range);
        let mut allocation: Option<ProximityBox> = None;
        let mut next = scan.pending();
        while next.is_some()
            invariant
                size > 0,
                self.pools.wf(),
                next == scan@.pending(),
                candidates(scan@.keys, self.pools.keys(), *range),
                scan@.sound(),
                allocation is Some <==> scan@.served,
                allocation matches Some(slice) ==> fits(slice, size, *range) && slice.pool_base()
                    == scan@.keys[scan@.asked - 1],
            decreases scan@.keys.len() - scan@.asked,
        {
            let key = next.unwrap();
            assert(scan@.keys.contains(key));
            let entry = self.pools.get(key);
            let answer = upgrade(entry.unwrap());
            let ghost before = scan@;
            let ghost given = answer;
            allocation = scan.heard(answer, size, range);
            proof {
                lemma_step_keeps_sound(before, heard_as(given, allocation));
            }
            next = scan.pending();
        }
        (allocation, scan)
    }

    /// Removes the pools registered under `keys` from the registry.
    pub fn prune(&mut self, keys: &Vec<usize>)
        requires
            old(self).wf(),
        ensures
            final(self).wf(),
            final(self).options() == old(self).options(),
            forall|key: usize|
                #![trigger final(self).pools().contains(key)]
                #![trigger old(self).pools().contains(key)]
                final(self).pools().contains(key) <==> old(self).pools().contains(key)
                    && !keys@.contains(key),
    {
        let mut count: usize = 0;
        while count < keys.len()
            invariant
                self.pools.wf(),
                self.options == old(self).options,
                count <= keys@.len(),
                forall|key: usize|
                    self.pools.keys().contains(key) <==> old(self).pools.keys().contains(key)
                        && !keys@.subrange(0, count as int).contains(key),
            decreases keys.len() - count,
        {
            let ghost done = keys@.subrange(0, count as int);
            self.pools.remove(keys[count]);
            count += 1;
            proof {
                let next = keys@.subrange(0, count as int);
                assert(next == done.push(keys@[count - 1]));
                assert forall|key: usize| next.contains(key) <==> done.contains(key) || key
                    == keys@[count - 1] by {
                    if next.contains(key) {
                        let i = choose|i: int| 0 <= i < next.len() && next[i] == key;
                        if i < done.len() {
                            assert(done[i] == key);
                        }
                    }
                    if done.contains(key) {
                        let i = choose|i: int| 0 <= i < done.len() && done[i] == key;
                        assert(next[i] == key);
                    }
                    assert(next[count - 1] == keys@[count - 1]);
                }
            }
        }
        assert(keys@.subrange(0, count as int) == keys@);
    }

    /// Carves the first slice of `size` bytes out of the new `pool` and
    /// registers the pool under its base address, if the pool gives the slice
    /// and the slice starts in `range`. Otherwise the pool is dropped.
    pub fn alloc_with_new_pool(
        &mut self,
        pool: SlicePool<u8>,
        size: usize,
        range: &Range<usize>,
    ) -> (r: Result<ProximityBox, AllocError>)
        requires
            old(self).wf(),
            size > 0,
        ensures
            final(self).wf(),
            final(self).options() == old(self).options(),
            housed(old(self).pools(), final(self).pools(), size, *range, r),
    {
        let base = pool_base(&pool);
        let pool = Arc::new(pool);
        let entry = downgrade(&pool);
        let carved = ProximityBox::carve(pool, base, size, range);
        self.house(carved, base, entry)
    }

    /// Settles an allocation by what a new pool gave: `carved` is the slice,
    /// if the pool gave one that fits, `base` the pool's base address and
    /// `entry` the reference to the pool. With a slice, the pool is
    /// registered under `base` and the slice is the result. Without one, the
    /// allocation is out of memory and the registry stays as it is.
    pub(crate) fn house(&mut self, carved: Option<ProximityBox>, base: usize, entry: PoolRef) -> (r:
        Result<ProximityBox, AllocError>)
        requires
            old(self).wf(),
        ensures
            final(self).wf(),
            final(self).options() == old(self).options(),
            match carved {
                Some(slice) => r == Ok::<ProximityBox, AllocError>(slice) && registered(
                    old(self).pools(),
                    final(self).pools(),
                    base,
                ),
                None => r == Err::<ProximityBox, AllocError>(AllocError::OutOfMemory)
                    && final(self).pools() == old(self).pools(),
            },
    {
        match carved {
            Some(slice) => {
                self.pools.insert(base, entry);
                Ok(slice)
            },
            None => Err(AllocError::OutOfMemory),
        }
    }
}

} // verus!
