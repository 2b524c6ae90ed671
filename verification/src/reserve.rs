//! The reservation of a new pool, one step at a time.
//!
//! An allocation that no existing pool can serve needs a new memory map. The
//! library decides where to look and what to ask for; the caller asks the
//! operating system and reports what it said. `Progress` is the state of such
//! an allocation: settled, waiting for the answer to a query, or waiting for
//! the outcome of a map request.
use crate::error::AllocError;
use crate::pool::ProximityBox;
use crate::search::{
    answers, free_regions_after, free_regions_before, queryable, FreeRegionIter, Probe,
    SearchDirection,
};
use crate::util::within;
use std::ops::Range;
use vstd::prelude::*;

verus! {

/// The search for a free region inside a window: a sweep upwards from the
/// origin, followed by a sweep downwards from the origin.
#[derive(Debug)]
pub struct Search {
    /// The sweep towards higher addresses, which comes first.
    pub after: FreeRegionIter,
    /// The sweep towards lower addresses.
    pub before: FreeRegionIter,
}

impl Search {
    /// Whether both sweeps stand at `origin`, inside `range`, as a new search
    /// does. The page size is the system's.
    pub open spec fn starts_at(self, origin: usize, range: Range<usize>) -> bool {
        &&& self.after == (FreeRegionIter {
            range,
            search: SearchDirection::After,
            current: origin,
            page_size: self.after.page_size,
        })
        &&& self.before == (FreeRegionIter {
            range,
            search: SearchDirection::Before,
            current: origin,
            page_size: self.before.page_size,
        })
    }

    /// Whether both sweeps stay inside `range`.
    pub open spec fn stays_in(self, range: Range<usize>) -> bool {
        self.after.range == range && self.before.range == range
    }

    /// The answers that the search can take at most before it is over, if
    /// each leaves the cursor less room.
    pub open spec fn room(self) -> nat {
        (if self.after.spec_pending() is Some {
            self.after.room() + 1
        } else {
            0
        }) + (if self.before.spec_pending() is Some {
            self.before.room() + 1
        } else {
            0
        })
    }

    /// The address that the search asks about next: that of the upward sweep
    /// until it is over, then that of the downward sweep.
    pub open spec fn spec_pending(self) -> Option<usize> {
        if self.after.spec_pending() is Some {
            self.after.spec_pending()
        } else {
            self.before.spec_pending()
        }
    }

    /// The search after the answer `probe` to its pending question, and what
    /// the answer brings out: the step of the sweep that asked.
    pub open spec fn step(self, probe: Probe) -> (Self, Option<Result<usize, AllocError>>) {
        if self.after.spec_pending() is Some {
            (Search { after: self.after.step(probe).0, ..self }, self.after.step(probe).1)
        } else {
            (Search { before: self.before.step(probe).0, ..self }, self.before.step(probe).1)
        }
    }

    /// A search around `origin`, inside `range`.
    pub fn new(origin: usize, range: &Range<usize>) -> (r: Self)
        ensures
            r.starts_at(origin, *range),
    {
        Search {
            after: free_regions_after(origin, range.start..range.end),
            before: free_regions_before(origin, range.start..range.end),
        }
    }

    /// The address to ask the operating system about, or `None` once both
    /// sweeps are over.
    pub fn pending(&self) -> (r: Option<usize>)
        ensures
            r == self.spec_pending(),
    {
        match self.after.pending() {
            Some(address) => Some(address),
            None => self.before.pending(),
        }
    }

    /// Takes the answer to the pending question. Returns a free address if the
    /// answer shows one, or the failure of the query.
    pub fn advance(&mut self, probe: Probe) -> (r: Option<Result<usize, AllocError>>)
        ensures
            (*final(self), r) == old(self).step(probe),
    {
        if self.after.pending().is_some() {
            self.after.advance(probe)
        } else {
            self.before.advance(probe)
        }
    }
}

/// Every answer brings the search closer to its end, if pages have a size and
/// a mapped region holds the address that it answers for: no sequence of
/// such answers keeps a search going forever.
pub proof fn lemma_answer_shortens_search(search: Search, probe: Probe)
    requires
        search.spec_pending() matches Some(address) && answers(probe, address),
        search.after.page_size > 0,
        search.before.page_size > 0,
    ensures
        search.step(probe).0.room() < search.room(),
{
}

/// A candidate that a search brings out is the address that it asked about,
/// which lies in the window of the search.
pub proof fn lemma_candidate_lies_in_range(search: Search, probe: Probe, range: Range<usize>)
    requires
        search.stays_in(range),
    ensures
        search.step(probe).0.stays_in(range),
        search.step(probe).1 matches Some(Ok(address)) ==> search.spec_pending() == Some(address)
            && within(range, address),
{
}

/// An allocation that waits for the answer to a query: which region, if any,
/// holds `address()`.
pub struct Querying {
    size: usize,
    range: Range<usize>,
    search: Search,
}

/// An allocation that waits for a memory map of `size()` bytes: at
/// `address()`, or anywhere if there is none.
pub struct Mapping {
    size: usize,
    range: Range<usize>,
    address: Option<usize>,
    search: Option<Search>,
}

/// The state of an allocation.
pub enum Progress {
    /// The allocation is settled.
    Done(Result<ProximityBox, AllocError>),
    /// The caller asks the operating system about an address and reports the
    /// answer with `Querying::probed`.
    Query(Querying),
    /// The caller asks the operating system for a memory map and reports the
    /// outcome with `ProximityAllocator::mapped`.
    Reserve(Mapping),
}

impl Querying {
    /// The number of bytes to allocate.
    pub closed spec fn spec_size(&self) -> usize {
        self.size
    }

    /// The window of the allocation.
    pub closed spec fn spec_range(&self) -> Range<usize> {
        self.range
    }

    /// The search so far.
    pub closed spec fn spec_search(&self) -> Search {
        self.search
    }

    #[verifier::type_invariant]
    spec fn asks(&self) -> bool {
        &&& self.size > 0
        &&& self.search.spec_pending() is Some
        &&& self.search.stays_in(self.range)
    }

    /// The number of bytes to allocate.
    pub fn size(&self) -> (r: usize)
        ensures
            r == self.spec_size(),
            r > 0,
    {
        proof {
            use_type_invariant(self);
        }
        self.size
    }

    /// The address to ask the operating system about.
    pub fn address(&self) -> (r: usize)
        ensures
            Some(r) == self.spec_search().spec_pending(),
            within(self.spec_range(), r),
            queryable(r),
    {
        proof {
            use_type_invariant(self);
        }
        self.search.pending().unwrap()
    }

    /// Whether `next` is the state that the answer `probe` leads to.
    ///
    /// Free memory makes the address a candidate: the allocation then waits
    /// for a map at it. A failed query ends the allocation with that failure.
    /// A mapped region is skipped; the allocation asks again, or ends with
    /// `OutOfMemory` once both sweeps have left the window.
    pub open spec fn follows(&self, probe: Probe, next: Progress) -> bool {
        match self.spec_search().step(probe) {
            (search, Some(Ok(address))) => next.reserves(
                self.spec_size(),
                self.spec_range(),
                Some(address),
                Some(search),
            ),
            (search, Some(Err(error))) => next.fails(error),
            (search, None) => next.resumes(self.spec_size(), self.spec_range(), search),
        }
    }

    /// Takes the operating system's answer about `address()`.
    pub fn probed(self, probe: Probe) -> (r: Progress)
        ensures
            self.follows(probe, r),
    {
        proof {
            use_type_invariant(&self);
        }
        let Querying { size, range, mut search } = self;
        match search.advance(probe) {
            Some(Ok(address)) => Progress::Reserve(
                Mapping { size, range, address: Some(address), search: Some(search) },
            ),
            Some(Err(error)) => Progress::Done(Err(error)),
            None => Progress::resume(size, range, search),
        }
    }
}

impl Mapping {
    /// The number of bytes to allocate, and to map.
    pub closed spec fn spec_size(&self) -> usize {
        self.size
    }

    /// The window of the allocation.
    pub closed spec fn spec_range(&self) -> Range<usize> {
        self.range
    }

    /// The address to map at, if the map is to stand at a fixed address.
    pub closed spec fn spec_address(&self) -> Option<usize> {
        self.address
    }

    /// The search to go on with if the map is refused, if there is one.
    pub closed spec fn spec_search(&self) -> Option<Search> {
        self.search
    }

    #[verifier::type_invariant]
    spec fn asks(&self) -> bool {
        &&& self.size > 0
        &&& self.address matches Some(address) ==> within(self.range, address) && queryable(
            address,
        )
        &&& self.search matches Some(search) ==> search.stays_in(self.range)
    }

    /// The number of bytes to allocate, and to map.
    pub fn size(&self) -> (r: usize)
        ensures
            r == self.spec_size(),
            r > 0,
    {
        proof {
            use_type_invariant(self);
        }
        self.size
    }

    /// The window of the allocation.
    pub fn range(&self) -> (r: &Range<usize>)
        ensures
            *r == self.spec_range(),
    {
        &self.range
    }

    /// The address to map at, which lies in the window and is neither the
    /// first nor the last of all, or `None` where any address will do.
    pub fn address(&self) -> (r: Option<usize>)
        ensures
            r == self.spec_address(),
            r matches Some(address) ==> within(self.spec_range(), address) && queryable(address),
    {
        proof {
            use_type_invariant(self);
        }
        self.address
    }

    /// Whether `next` is the state that a refusal to map leads to.
    pub open spec fn gives_up(&self, next: Progress) -> bool {
        match self.spec_search() {
            Some(search) => next.resumes(self.spec_size(), self.spec_range(), search),
            None => next.fails(AllocError::OutOfMemory),
        }
    }

    /// Takes the operating system's refusal to map.
    ///
    /// A refusal to map anywhere ends the allocation with `OutOfMemory`.
    /// After a refusal to map at a candidate the search goes on: the
    /// allocation asks about the next address, or ends with `OutOfMemory`
    /// once both sweeps have left the window.
    pub fn failed(self) -> (r: Progress)
        ensures
            self.gives_up(r),
    {
        proof {
            use_type_invariant(&self);
        }
        let Mapping { size, range, address: _, search } = self;
        match search {
            Some(search) => Progress::resume(size, range, search),
            None => Progress::Done(Err(AllocError::OutOfMemory)),
        }
    }
}

impl Progress {
    /// The allocation has ended with `error`.
    pub open spec fn fails(self, error: AllocError) -> bool {
        self matches Progress::Done(Err(e)) && e == error
    }

    /// The allocation waits for the answer to the pending question of
    /// `search`.
    pub open spec fn queries(self, size: usize, range: Range<usize>, search: Search) -> bool {
        &&& self matches Progress::Query(q)
        &&& q.spec_size() == size
        &&& q.spec_range() == range
        &&& q.spec_search() == search
    }

    /// The allocation waits for a map of `size` bytes at `address`.
    pub open spec fn reserves(
        self,
        size: usize,
        range: Range<usize>,
        address: Option<usize>,
        search: Option<Search>,
    ) -> bool {
        &&& self matches Progress::Reserve(m)
        &&& m.spec_size() == size
        &&& m.spec_range() == range
        &&& m.spec_address() == address
        &&& m.spec_search() == search
    }

    /// The allocation goes on with `search`: it asks the pending question, or
    /// has ended with `OutOfMemory` if there is none.
    pub open spec fn resumes(self, size: usize, range: Range<usize>, search: Search) -> bool {
        if search.spec_pending() is Some {
            self.queries(size, range, search)
        } else {
            self.fails(AllocError::OutOfMemory)
        }
    }

    /// The allocation begins a search around `origin`: it asks about `origin`
    /// itself, or has ended with `OutOfMemory` where `origin` cannot be asked
    /// about.
    pub open spec fn begins(self, size: usize, origin: usize, range: Range<usize>) -> bool {
        if queryable(origin) && within(range, origin) {
            &&& self matches Progress::Query(q)
            &&& q.spec_size() == size
            &&& q.spec_range() == range
            &&& q.spec_search().starts_at(origin, range)
        } else {
            self.fails(AllocError::OutOfMemory)
        }
    }

    /// The state of an allocation of `size` bytes that goes on with `search`.
    pub(crate) fn resume(size: usize, range: Range<usize>, search: Search) -> (r: Self)
        requires
            size > 0,
            search.stays_in(range),
        ensures
            r.resumes(size, range, search),
    {
        if search.pending().is_some() {
            Progress::Query(Querying { size, range, search })
        } else {
            Progress::Done(Err(AllocError::OutOfMemory))
        }
    }

    /// The state of an allocation of `size` bytes that needs a map at any
    /// address.
    pub(crate) fn anywhere(size: usize, range: Range<usize>) -> (r: Self)
        requires
            size > 0,
        ensures
            r.reserves(size, range, None, None),
    {
        Progress::Reserve(Mapping { size, range, address: None, search: None })
    }
}

} // verus!
