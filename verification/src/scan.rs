//! The scan through the existing pools, one pool at a time.
//!
//! An allocation first asks the registered pools with a base address inside
//! its window, in ascending order of base address, until one gives a slice.
//! `PoolScan` is the record of such a scan: the pools to ask, how many of
//! them were asked, which of them were found dead, and whether the pool asked
//! last gave the slice.
use crate::fits;
use crate::pool::ProximityBox;
use crate::registry::ascending;
use slice_pool::sync::SlicePool;
use std::ops::Range;
use std::sync::Arc;
use vstd::prelude::*;

verus! {

/// What a pool makes of the request for a slice.
#[derive(Clone, Copy, Debug, PartialEq, Eq, Structural)]
pub enum Heard {
    /// The pool is dead: none of its slices is alive any more.
    Dead,
    /// The pool is alive and gives no slice that can be handed out.
    Refused,
    /// The pool gives the slice.
    Served,
}

/// The record of a scan.
#[derive(Debug)]
pub struct PoolScan {
    /// The base addresses of the pools to ask, in the order of asking.
    pub keys: Vec<usize>,
    /// The number of pools asked so far.
    pub asked: usize,
    /// The base addresses of the pools found dead, in the order of asking.
    pub stale: Vec<usize>,
    /// Whether the pool asked last gave the slice.
    pub served: bool,
}

/// The record of a scan, as plain values.
pub struct PoolScanView {
    pub keys: Seq<usize>,
    pub asked: int,
    pub stale: Seq<usize>,
    pub served: bool,
}

impl View for PoolScan {
    type V = PoolScanView;

    open spec fn view(&self) -> PoolScanView {
        PoolScanView {
            keys: self.keys@,
            asked: self.asked as int,
            stale: self.stale@,
            served: self.served,
        }
    }
}

impl PoolScanView {
    /// The record of a scan that has `keys` to ask and has asked none.
    pub open spec fn start(keys: Seq<usize>) -> Self {
        PoolScanView { keys, asked: 0, stale: Seq::empty(), served: false }
    }

    /// The base address of the pool to ask next: the first not yet asked,
    /// unless a pool gave the slice or all were asked.
    pub open spec fn pending(self) -> Option<usize> {
        if !self.served && 0 <= self.asked < self.keys.len() {
            Some(self.keys[self.asked])
        } else {
            None
        }
    }

    /// The record after the pool asked has answered. A dead pool is noted as
    /// stale, a pool that serves ends the scan, and each answer counts as one
    /// pool asked. A scan with nothing pending stays as it is.
    pub open spec fn step(self, heard: Heard) -> Self {
        match self.pending() {
            None => self,
            Some(key) => match heard {
                Heard::Dead => PoolScanView {
                    asked: self.asked + 1,
                    stale: self.stale.push(key),
                    ..self
                },
                Heard::Refused => PoolScanView { asked: self.asked + 1, ..self },
                Heard::Served => PoolScanView { asked: self.asked + 1, served: true, ..self },
            },
        }
    }

    /// The number of pools that were asked and gave no slice.
    pub open spec fn passed(self) -> int {
        if self.served {
            self.asked - 1
        } else {
            self.asked
        }
    }

    /// Whether the record is one that a scan can reach: the pools found dead
    /// are among those that were asked and gave no slice, in the order of
    /// asking.
    pub open spec fn sound(self) -> bool {
        &&& 0 <= self.passed() <= self.asked <= self.keys.len()
        &&& ascending(self.stale)
        &&& forall|i: int|
            0 <= i < self.stale.len() ==> among(self.keys, self.passed(), #[trigger] self.stale[i])
    }

    /// Whether no pool is left to ask: a pool gave the slice, or all were
    /// asked.
    pub open spec fn over(self) -> bool {
        self.pending() is None
    }
}

/// Whether `key` is one of the first `count` of `keys`.
pub open spec fn among(keys: Seq<usize>, count: int, key: usize) -> bool {
    exists|j: int| 0 <= j < count && j < keys.len() && #[trigger] keys[j] == key
}

/// What the answer of a pool counts as: `answer` is the pool, if it is
/// alive, and `slice` is what came of asking it.
pub open spec fn heard_as(
    answer: Option<Arc<SlicePool<u8>>>,
    slice: Option<ProximityBox>,
) -> Heard {
    if answer is None {
        Heard::Dead
    } else if slice is Some {
        Heard::Served
    } else {
        Heard::Refused
    }
}

/// A step keeps a sound record sound, if the pools to ask ascend.
pub proof fn lemma_step_keeps_sound(scan: PoolScanView, heard: Heard)
    requires
        scan.sound(),
        ascending(scan.keys),
    ensures
        scan.step(heard).sound(),
{
    let next = scan.step(heard);
    if scan.pending() is Some {
        let key = scan.keys[scan.asked];
        assert forall|i: int| 0 <= i < next.stale.len() implies among(
            next.keys,
            next.passed(),
            #[trigger] next.stale[i],
        ) by {
            if i < scan.stale.len() {
                assert(among(scan.keys, scan.passed(), scan.stale[i]));
                let j = choose|j: int|
                    0 <= j < scan.passed() && j < scan.keys.len() && #[trigger] scan.keys[j]
                        == scan.stale[i];
                assert(next.keys[j] == next.stale[i]);
            } else {
                assert(next.keys[scan.asked] == next.stale[i]);
            }
        }
        assert forall|a: int, b: int| 0 <= a < b < next.stale.len() implies next.stale[a]
            < next.stale[b] by {
            if b == scan.stale.len() {
                assert(among(scan.keys, scan.passed(), scan.stale[a]));
                let j = choose|j: int|
                    0 <= j < scan.passed() && j < scan.keys.len() && #[trigger] scan.keys[j]
                        == scan.stale[a];
                assert(scan.keys[j] < scan.keys[scan.asked]);
            }
        }
    }
}

/// A pool goes stale by being found dead, and in no other way: the answer
/// `Dead` adds the pool asked to the stale ones, and every other answer
/// leaves them as they are.
pub proof fn lemma_only_dead_pools_go_stale(scan: PoolScanView, heard: Heard)
    requires
        scan.pending() is Some,
    ensures
        heard is Dead ==> scan.step(heard).stale == scan.stale.push(scan.pending()->0),
        !(heard is Dead) ==> scan.step(heard).stale == scan.stale,
        scan.step(heard).asked == scan.asked + 1,
        scan.step(heard).served <==> heard is Served,
{
}

impl PoolScan {
    /// The record of a scan that has `keys` to ask and has asked none.
    pub fn new(keys: Vec<usize>) -> (r: Self)
        ensures
            r@ == PoolScanView::start(keys@),
    {
        PoolScan { keys, asked: 0, stale: Vec::new(), served: false }
    }

    /// The base address of the pool to ask next, or `None` once a pool gave
    /// the slice or all pools were asked.
    pub fn pending(&self) -> (r: Option<usize>)
        ensures
            r == self@.pending(),
    {
        if !self.served && self.asked < self.keys.len() {
            Some(self.keys[self.asked])
        } else {
            None
        }
    }

    /// Takes the answer of the pool that was asked: `answer` is the pool, if
    /// it is alive. A dead pool is noted as stale. A pool that is alive is
    /// asked for a slice of `size` bytes, and the slice is returned if the
    /// pool gives one that starts inside `range`.
    pub fn heard(
        &mut self,
        answer: Option<Arc<SlicePool<u8>>>,
        size: usize,
        range: &Range<usize>,
    ) -> (r: Option<ProximityBox>)
        requires
            size > 0,
        ensures
            final(self)@ == old(self)@.step(heard_as(answer, r)),
            answer is None ==> r is None,
            r matches Some(slice) ==> old(self)@.pending() matches Some(key) && fits(
                slice,
                size,
                *range,
            ) && slice.pool_base() == key,
    {
        match self.pending() {
            None => None,
            Some(key) => {
                assert(self.asked < self.keys.len());
                self.asked = self.asked + 1;
                match answer {
                    None => {
                        self.stale.push(key);
                        None
                    },
                    Some(pool) => {
                        let slice = ProximityBox::carve(pool, key, size, range);
                        if slice.is_some() {
                            self.served = true;
                        }
                        slice
                    },
                }
            },
        }
    }
}

} // verus!
