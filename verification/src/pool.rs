//! Pools and the slices carved out of them.
//!
//! A pool is one memory map managed by `slice_pool`. The pool and its slices
//! are opaque here; what the allocator reads of them (a slice's length and
//! address, a pool's base address) comes through the functions of this module.
use crate::util::{within, RangeContains};
use slice_pool::sync::{SliceBox, SlicePool};
use std::ops::Range;
use std::sync::{Arc, Weak};
use vstd::prelude::*;

verus! {

/// `slice_pool::sync::SlicePool`, the pool.
#[verifier::external_type_specification]
#[verifier::external_body]
#[verifier::reject_recursive_types(T)]
pub struct ExSlicePool<T: Send>(SlicePool<T>);

/// `slice_pool::sync::SliceBox`, a slice of a pool.
#[verifier::external_type_specification]
#[verifier::external_body]
#[verifier::reject_recursive_types(T)]
pub struct ExSliceBox<T: Send + 'static>(SliceBox<T>);

/// A reference to a pool that does not keep the pool alive: a
/// `std::sync::Weak`, which cannot be described to the verifier and is
/// therefore kept out of its sight.
#[verifier::external_body]
pub(crate) struct PoolRef {
    pool: Weak<SlicePool<u8>>,
}

/// The bytes that a slice holds: what its `Deref` shows.
pub uninterp spec fn slice_bytes(data: SliceBox<u8>) -> Seq<u8>;

/// `SlicePool::alloc`: asks the pool for a slice of `size` bytes. The pool
/// answers with a slice of exactly that length, or with nothing when it has no
/// free run that long.
#[verifier::external_body]
fn pool_alloc(pool: &Arc<SlicePool<u8>>, size: usize) -> (r: Option<SliceBox<u8>>)
    requires
        size > 0,
    ensures
        r matches Some(data) ==> slice_bytes(data).len() == size,
{
    pool.alloc(size)
}

/// `SlicePool::as_ptr`: the address of the pool's first byte. Nothing is
/// claimed of the address.
#[verifier::external_body]
pub(crate) fn pool_base(pool: &SlicePool<u8>) -> usize {
    pool.as_ptr() as usize
}

/// The address of a slice's first byte, read through `SliceBox`'s `Deref`.
/// Nothing is claimed of the address.
#[verifier::external_body]
fn slice_address(data: &SliceBox<u8>) -> usize {
    data.as_ptr() as usize
}

/// `SliceBox`'s `Deref`: the bytes of the slice.
#[verifier::external_body]
fn slice_ref(data: &SliceBox<u8>) -> (r: &[u8])
    ensures
        r@ == slice_bytes(*data),
{
    data
}

/// `SliceBox`'s `DerefMut`: the bytes of the slice, to be written. The slice
/// holds afterwards what the caller left in them, and keeps its length.
#[verifier::external_body]
fn slice_mut(data: &mut SliceBox<u8>) -> (r: &mut [u8])
    ensures
        r@ == slice_bytes(*old(data)),
        final(r)@.len() == r@.len(),
        slice_bytes(*final(data)) == final(r)@,
{
    data
}

/// `Arc::downgrade`: a reference to the pool that does not keep it alive.
#[verifier::external_body]
pub(crate) fn downgrade(pool: &Arc<SlicePool<u8>>) -> PoolRef {
    PoolRef { pool: Arc::downgrade(pool) }
}

/// `Weak::upgrade`: the pool, if any of its slices is still alive.
#[verifier::external_body]
pub(crate) fn upgrade(pool: &PoolRef) -> Option<Arc<SlicePool<u8>>> {
    pool.pool.upgrade()
}

/// A slice for allocated proximity memory.
///
/// The slice keeps its pool alive. When the slice is dropped its bytes return
/// to the pool, and the pool's memory map is released with its last slice.
pub struct ProximityBox {
    pool: Arc<SlicePool<u8>>,
    data: SliceBox<u8>,
    address: usize,
    base: usize,
}

impl View for ProximityBox {
    type V = Seq<u8>;

    /// The bytes of the slice.
    closed spec fn view(&self) -> Seq<u8> {
        slice_bytes(self.data)
    }
}

impl ProximityBox {
    /// The address that the slice reported for its first byte when it was
    /// carved.
    pub closed spec fn spec_address(&self) -> usize {
        self.address
    }

    /// The base address under which the pool of the slice is registered.
    pub closed spec fn spec_pool_base(&self) -> usize {
        self.base
    }

    /// Carves a slice of `size` bytes out of `pool`, which is registered under
    /// `base`, and keeps the slice if it starts inside `range`. A slice that
    /// starts elsewhere goes back to the pool.
    pub(crate) fn carve(
        pool: Arc<SlicePool<u8>>,
        base: usize,
        size: usize,
        range: &Range<usize>,
    ) -> (r: Option<Self>)
        requires
            size > 0,
        ensures
            r matches Some(slice) ==> {
                &&& slice@.len() == size
                &&& within(*range, slice.spec_address())
                &&& slice.spec_pool_base() == base
            },
    {
        match pool_alloc(&pool, size) {
            Some(data) => {
                let address = slice_address(&data);
                Self::place(pool, data, address, base, range)
            },
            None => None,
        }
    }

    /// Makes the slice of `data`, which a pool registered under `base` gave
    /// and which starts at `address`, if `address` lies inside `range`.
    /// Otherwise `data` goes back to its pool and there is no slice.
    pub(crate) fn place(
        pool: Arc<SlicePool<u8>>,
        data: SliceBox<u8>,
        address: usize,
        base: usize,
        range: &Range<usize>,
    ) -> (r: Option<Self>)
        ensures
            r is Some <==> within(*range, address),
            r matches Some(slice) ==> {
                &&& slice@ == slice_bytes(data)
                &&& slice.spec_address() == address
                &&& slice.spec_pool_base() == base
            },
    {
        if range.contains_(address) {
            Some(ProximityBox { pool, data, address, base })
        } else {
            None
        }
    }

    /// The base address under which the pool of the slice is registered.
    #[verifier::when_used_as_spec(spec_pool_base)]
    pub fn pool_base(&self) -> (r: usize)
        ensures
            r == self.spec_pool_base(),
    {
        self.base
    }

    /// The address of the first byte.
    #[verifier::when_used_as_spec(spec_address)]
    pub fn address(&self) -> (r: usize)
        ensures
            r == self.spec_address(),
    {
        self.address
    }

    /// The number of bytes.
    pub fn len(&self) -> (r: usize)
        ensures
            r == self@.len(),
    {
        slice_ref(&self.data).len()
    }

    /// The bytes of the slice.
    pub fn deref(&self) -> (r: &[u8])
        ensures
            r@ == self@,
    {
        slice_ref(&self.data)
    }

    /// The bytes of the slice, to be written.
    pub fn deref_mut(&mut self) -> (r: &mut [u8])
        ensures
            r@ == old(self)@,
            final(r)@.len() == r@.len(),
            final(self)@ == final(r)@,
            final(self).spec_address() == old(self).spec_address(),
            final(self).spec_pool_base() == old(self).spec_pool_base(),
    {
        slice_mut(&mut self.data)
    }
}

} // verus!
