//! The search for free regions around an origin.
use crate::error::AllocError;
use crate::margin::clamp;
use crate::util::{within, RangeContains};
use std::ops::Range;
use vstd::arithmetic::div_mod::{lemma_mod_add_multiples_vanish, lemma_mod_sub_multiples_vanish};
use vstd::prelude::*;

verus! {

/// Direction for the region search.
#[derive(Clone, Copy, Debug, PartialEq, Eq, Structural)]
pub enum SearchDirection {
    /// Towards lower addresses.
    Before,
    /// Towards higher addresses.
    After,
}

/// What the operating system says of the address that a search asked about.
#[derive(Debug)]
pub enum Probe {
    /// The address lies in the mapped region `[lower, upper)`.
    Mapped { lower: usize, upper: usize },
    /// Nothing is mapped at the address.
    Free,
    /// The query failed.
    Failed(region::Error),
}

/// `region::Region`, the descriptor of a memory region that a query returns.
#[verifier::external_type_specification]
#[verifier::external_body]
pub struct ExRegion(region::Region);

/// Reads the answer of `region::query`: the lower bound of the region that it
/// found, by `Region::lower`, with the region's size; or else its error,
/// which is `FreeMemory` where nothing is mapped, here `None`, and a failure
/// in every other case.
#[verifier::external_body]
fn read_answer(answer: Result<region::Region, region::Error>) -> (r: Result<
    (usize, usize),
    Option<region::Error>,
>)
    ensures
        r is Ok <==> answer is Ok,
        r matches Err(Some(failure)) ==> answer matches Err(error) && error == failure,
{
    match answer {
        Ok(found) => Ok((found.lower(), found.size)),
        Err(region::Error::FreeMemory) => Err(None),
        Err(error) => Err(Some(error)),
    }
}

/// The addresses that a query can be made about: all but the first and the last.
pub open spec fn queryable(address: usize) -> bool {
    1 <= address < usize::MAX
}

/// Whether `address` is a multiple of the page size.
pub open spec fn aligned(address: usize, page_size: usize) -> bool {
    page_size > 0 && address % page_size == 0
}

/// Whether `probe` can be the answer to a query about `address`: a mapped
/// region that answers it holds the address.
pub open spec fn answers(probe: Probe, address: usize) -> bool {
    probe matches Probe::Mapped { lower, upper } ==> lower <= address < upper
}

/// A search for free regions: a cursor that walks away from an origin in one
/// direction, inside a window, one answer of the operating system at a time.
#[derive(Debug)]
pub struct FreeRegionIter {
    /// The window that the cursor stays in.
    pub range: Range<usize>,
    /// The direction that the cursor walks in.
    pub search: SearchDirection,
    /// The cursor.
    pub current: usize,
    /// The size of a page, the step between two candidates.
    pub page_size: usize,
}

/// The system's page size, as `region::page::size` reports it. Nothing is
/// claimed of the number.
#[verifier::external_body]
fn page_size() -> usize {
    region::page::size()
}

impl Probe {
    /// The answer of `region::query` as a probe: the region that the query
    /// found, free memory where it found none, or its failure.
    pub fn from_answer(answer: Result<region::Region, region::Error>) -> (r: Self)
        ensures
            r is Mapped <==> answer is Ok,
            answer matches Err(error) ==> r is Free || r == Probe::Failed(error),
    {
        Self::from_reading(read_answer(answer))
    }

    /// The probe for what was read of an answer: a mapped region by its lower
    /// bound and its size, where the upper bound stops at the end of the
    /// address space; free memory for `Err(None)`; the failure of the query
    /// else.
    pub fn from_reading(reading: Result<(usize, usize), Option<region::Error>>) -> (r: Self)
        ensures
            r == match reading {
                Ok((lower, size)) => Probe::Mapped { lower, upper: clamp(lower + size) },
                Err(None) => Probe::Free,
                Err(Some(error)) => Probe::Failed(error),
            },
    {
        match reading {
            Ok((lower, size)) => Probe::Mapped { lower, upper: lower.saturating_add(size) },
            Err(None) => Probe::Free,
            Err(Some(error)) => Probe::Failed(error),
        }
    }
}

impl FreeRegionIter {
    /// The cursor one page further in the direction of the search, stopping at
    /// either end of the address space.
    pub open spec fn stride(self) -> usize {
        match self.search {
            SearchDirection::Before => clamp(self.current - self.page_size),
            SearchDirection::After => clamp(self.current + self.page_size),
        }
    }

    /// The way that is left to the cursor in its direction, to the end of the
    /// address space.
    pub open spec fn room(self) -> nat {
        match self.search {
            SearchDirection::Before => self.current as nat,
            SearchDirection::After => (usize::MAX - self.current) as nat,
        }
    }

    /// The address that the search asks about next: the cursor, as long as it
    /// can be queried and lies in the window.
    pub open spec fn spec_pending(self) -> Option<usize> {
        if queryable(self.current) && within(self.range, self.current) {
            Some(self.current)
        } else {
            None
        }
    }

    /// The search after the answer `probe` to its pending question, and the
    /// candidate or failure that the answer brings out.
    ///
    /// A mapped region yields nothing and moves the cursor past it: to its
    /// upper bound when walking up, a page below its lower bound when walking
    /// down. Free memory yields the cursor, any failure yields the failure, and
    /// both move the cursor by one page. A search that has nothing pending
    /// stays as it is.
    pub open spec fn step(self, probe: Probe) -> (Self, Option<Result<usize, AllocError>>) {
        if self.spec_pending() is None {
            (self, None)
        } else {
            match probe {
                Probe::Mapped { lower, upper } => (
                    FreeRegionIter {
                        current: match self.search {
                            SearchDirection::Before => clamp(lower - self.page_size),
                            SearchDirection::After => upper,
                        },
                        ..self
                    },
                    None,
                ),
                Probe::Free => (
                    FreeRegionIter { current: self.stride(), ..self },
                    Some(Ok(self.current)),
                ),
                Probe::Failed(error) => (
                    FreeRegionIter { current: self.stride(), ..self },
                    Some(Err(AllocError::RegionFailure(error))),
                ),
            }
        }
    }

    /// Creates a search that starts at `origin`, with a given page size.
    pub fn with_page_size(
        origin: usize,
        range: Range<usize>,
        search: SearchDirection,
        page_size: usize,
    ) -> (r: Self)
        ensures
            r == (FreeRegionIter { range, search, current: origin, page_size }),
    {
        FreeRegionIter { range, search, current: origin, page_size }
    }

    /// Creates a new iterator for free regions, with the system's page size.
    pub fn new(origin: usize, range: Range<usize>, search: SearchDirection) -> (r: Self)
        ensures
            r == (FreeRegionIter { range, search, current: origin, page_size: r.page_size }),
    {
        Self::with_page_size(origin, range, search, page_size())
    }

    /// The address to ask the operating system about, or `None` once the
    /// search is over.
    pub fn pending(&self) -> (r: Option<usize>)
        ensures
            r == self.spec_pending(),
    {
        let memory = 1..usize::MAX;
        if memory.contains_(self.current) && self.range.contains_(self.current) {
            Some(self.current)
        } else {
            None
        }
    }

    /// Takes the answer to the pending question and moves the cursor. Returns
    /// the closest free region for the cursor, if the answer shows one, or the
    /// failure of the query.
    pub fn advance(&mut self, probe: Probe) -> (r: Option<Result<usize, AllocError>>)
        ensures
            (*final(self), r) == old(self).step(probe),
    {
        if self.pending().is_none() {
            return None;
        }
        match probe {
            Probe::Mapped { lower, upper } => {
                self.current = match self.search {
                    SearchDirection::Before => lower.saturating_sub(self.page_size),
                    SearchDirection::After => upper,
                };
                None
            },
            failure => {
                // Check whether the region is free, otherwise return the error
                let result = match failure {
                    Probe::Failed(error) => Err(AllocError::RegionFailure(error)),
                    _ => Ok(self.current),
                };

                // Adjust the offset for repeated calls.
                self.current = match self.search {
                    SearchDirection::Before => self.current.saturating_sub(self.page_size),
                    SearchDirection::After => self.current.saturating_add(self.page_size),
                };

                Some(result)
            },
        }
    }
}

/// A candidate that a search brings out is the address that it asked about,
/// which lies in the window.
pub proof fn lemma_candidate_lies_in_window(sweep: FreeRegionIter, probe: Probe)
    ensures
        sweep.step(probe).1 matches Some(Ok(address)) ==> sweep.spec_pending() == Some(address)
            && within(sweep.range, address) && queryable(address),
{
}

/// Candidates stay page-aligned: if the cursor and the bounds of a mapped
/// region that answers are multiples of the page size, so are the candidate
/// that the answer brings out and the address that the search asks about
/// next.
pub proof fn lemma_candidates_stay_aligned(sweep: FreeRegionIter, probe: Probe)
    requires
        aligned(sweep.current, sweep.page_size),
        probe matches Probe::Mapped { lower, upper } ==> aligned(lower, sweep.page_size)
            && aligned(upper, sweep.page_size),
    ensures
        sweep.step(probe).1 matches Some(Ok(address)) ==> aligned(address, sweep.page_size),
        sweep.step(probe).0.spec_pending() matches Some(address) ==> aligned(
            address,
            sweep.page_size,
        ),
{
    let page = sweep.page_size as int;
    let next = sweep.step(probe).0;
    if next.spec_pending() is Some && sweep.spec_pending() is Some {
        lemma_mod_add_multiples_vanish(sweep.current as int, page);
        lemma_mod_sub_multiples_vanish(sweep.current as int, page);
        if let Probe::Mapped { lower, upper } = probe {
            lemma_mod_sub_multiples_vanish(lower as int, page);
        }
    }
}

/// Every answer leaves the cursor less room than it had, if pages have a size
/// and a mapped region holds the address that it answers for. A search
/// therefore ends after finitely many answers.
pub proof fn lemma_answer_moves_cursor(sweep: FreeRegionIter, probe: Probe)
    requires
        sweep.spec_pending() is Some,
        sweep.page_size > 0,
        answers(probe, sweep.current),
    ensures
        sweep.step(probe).0.room() < sweep.room(),
{
}

/// Returns an iterator for free after the specified address.
pub fn free_regions_after(origin: usize, range: Range<usize>) -> (r: FreeRegionIter)
    ensures
        r == (FreeRegionIter {
            range,
            search: SearchDirection::After,
            current: origin,
            page_size: r.page_size,
        }),
{
    FreeRegionIter::new(origin, range, SearchDirection::After)
}

/// Returns an iterator for free before the specified address.
pub fn free_regions_before(origin: usize, range: Range<usize>) -> (r: FreeRegionIter)
    ensures
        r == (FreeRegionIter {
            range,
            search: SearchDirection::Before,
            current: origin,
            page_size: r.page_size,
        }),
{
    FreeRegionIter::new(origin, range, SearchDirection::Before)
}

} // verus!
