//! The nearest-neighbour index and its growth policy.
//!
//! The index itself is `usearch::Index`. This module owns its life cycle as
//! far as sizes are concerned: creation, reservation, and the rule by which
//! the index grows before an insert. Vectors never pass through here; the
//! caller searches them on the index that `ApproximateIndex::inner` hands
//! out, and adds them on the one that `ApproximateIndex::inner_mut` hands
//! out.

use vstd::multiset::Multiset;
use vstd::prelude::*;

verus! {

#[verifier::external_type_specification]
#[verifier::external_body]
pub struct ExIndex(usearch::Index);

/// The keys under which vectors are held in `index`.
pub uninterp spec fn index_keys(index: usearch::Index) -> Multiset<u64>;

/// The number of vectors for which `index` has reserved room.
pub uninterp spec fn index_limit(index: usearch::Index) -> nat;

/// The number of components of the vectors that `index` takes.
pub uninterp spec fn index_dimensions(index: usearch::Index) -> nat;

/// Slots reserved when an index is created.
pub const INITIAL_CAPACITY: usize = 1000;

/// Slots added each time the index has to grow.
pub const GROWTH_INCREMENT: usize = 1000;

/// Why an index operation failed.
#[derive(Debug)]
pub enum IndexError {
    /// The index itself reported a failure; this is its message.
    Backend(String),
    /// Growing by the fixed increment would exceed what a `usize` can count.
    CapacityOverflow,
    /// The index has no free slot even after growing.
    Full,
    /// The index takes vectors of another number of components than asked.
    WrongDimensions,
    /// The index holds more vectors than it has room for.
    Overfull,
}

/// `usearch::Index::new` with cosine distance and half-precision storage, the
/// other options left at their defaults. Trusted: a new index holds no
/// vector and takes vectors of the number of components asked for. A failure
/// is reported with the message of the index's exception.
#[verifier::external_body]
fn index_new(dimensions: usize) -> (r: Result<usearch::Index, String>)
    ensures
        r matches Ok(index) ==> index_keys(index).len() == 0 && index_dimensions(index)
            == dimensions,
{
    let options = usearch::IndexOptions {
        dimensions,
        metric: usearch::MetricKind::Cos,
        quantization: usearch::ScalarKind::F16,
        ..Default::default()
    };
    usearch::Index::new(&options).map_err(|e| e.to_string())
}

/// `usearch::Index::size`. Trusted: it is the number of vectors held.
#[verifier::external_body]
fn index_size(index: &usearch::Index) -> (n: usize)
    ensures
        n == index_keys(*index).len(),
{
    index.size()
}

/// `usearch::Index::capacity`. Trusted: it is the reserved number of slots.
#[verifier::external_body]
fn index_capacity(index: &usearch::Index) -> (n: usize)
    ensures
        n == index_limit(*index),
{
    index.capacity()
}

/// `usearch::Index::dimensions`. Trusted: it is the number of components of
/// the vectors that the index takes.
#[verifier::external_body]
fn index_dimensions_of(index: &usearch::Index) -> (n: usize)
    ensures
        n == index_dimensions(*index),
{
    index.dimensions()
}

/// `usearch::Index::reserve`. Trusted: reserving never removes a vector,
/// never lowers the capacity and leaves the dimensions alone, and after a
/// success the capacity is at least the one asked for. A failure is reported
/// with the message of the index's exception.
#[verifier::external_body]
fn index_reserve(index: &mut usearch::Index, capacity: usize) -> (r: Result<(), String>)
    ensures
        index_keys(*final(index)) == index_keys(*old(index)),
        index_dimensions(*final(index)) == index_dimensions(*old(index)),
        index_limit(*final(index)) >= index_limit(*old(index)),
        r is Ok ==> index_limit(*final(index)) >= capacity,
{
    index.reserve(capacity).map_err(|e| e.to_string())
}

/// Whether an index holding `size` vectors in `capacity` slots is within one
/// slot of being full, so that it has to grow before the next insert.
pub open spec fn needs_growth(size: nat, capacity: nat) -> bool {
    size + 1 >= capacity
}

/// Whether an index holding `size` vectors in `capacity` slots has to grow
/// before the next insert.
pub fn must_grow(size: usize, capacity: usize) -> (r: bool)
    ensures
        r == needs_growth(size as nat, capacity as nat),
{
    size >= capacity || capacity - size <= 1
}

/// The capacity to ask for when an index of `capacity` slots has to grow:
/// `GROWTH_INCREMENT` slots more, a fixed step and no multiple of what is
/// there. `None` when that number cannot be counted.
pub fn growth_target(capacity: usize) -> (t: Option<usize>)
    ensures
        t == (if capacity + GROWTH_INCREMENT <= usize::MAX {
            Some((capacity + GROWTH_INCREMENT) as usize)
        } else {
            None
        }),
{
    capacity.checked_add(GROWTH_INCREMENT)
}

/// Whether an index that has just grown, and now holds `size` vectors in
/// `capacity` slots, has a free slot.
pub fn room_after_growth(size: usize, capacity: usize) -> (r: Result<(), IndexError>)
    ensures
        size < capacity ==> r is Ok,
        size >= capacity ==> r matches Err(IndexError::Full),
{
    if size < capacity {
        Ok(())
    } else {
        Err(IndexError::Full)
    }
}

/// An approximate nearest-neighbour index over embedding vectors, keyed by
/// the row identity of the record each vector was computed from.
pub struct ApproximateIndex {
    inner: usearch::Index,
}

impl ApproximateIndex {
    /// The keys of the vectors held.
    pub closed spec fn keys(&self) -> Multiset<u64> {
        index_keys(self.inner)
    }

    /// Number of vectors held.
    pub open spec fn held(&self) -> nat {
        self.keys().len()
    }

    /// Number of vectors the index can hold before it must grow.
    pub closed spec fn limit(&self) -> nat {
        index_limit(self.inner)
    }

    /// Number of components of the vectors that the index takes.
    pub closed spec fn width(&self) -> nat {
        index_dimensions(self.inner)
    }

    /// Creates an empty index for vectors of `dimensions` components and
    /// reserves its initial capacity.
    pub fn new(dimensions: usize) -> (r: Result<Self, IndexError>)
        ensures
            match r {
                Ok(index) => index.held() == 0 && index.limit() >= INITIAL_CAPACITY
                    && index.width() == dimensions,
                Err(e) => e is Backend,
            },
    {
        match Self::unreserved(dimensions) {
            Err(e) => Err(e),
            Ok(index) => {
                let mut index = index;
                match index.reserve(INITIAL_CAPACITY) {
                    Err(e) => Err(e),
                    Ok(()) => Ok(index),
                }
            },
        }
    }

    /// Creates an empty index for vectors of `dimensions` components and
    /// reserves nothing: for an index whose contents are about to be loaded.
    pub fn unreserved(dimensions: usize) -> (r: Result<Self, IndexError>)
        ensures
            match r {
                Ok(index) => index.held() == 0 && index.width() == dimensions,
                Err(e) => e is Backend,
            },
    {
        match index_new(dimensions) {
            Err(message) => Err(IndexError::Backend(message)),
            Ok(inner) => Ok(ApproximateIndex { inner }),
        }
    }

    /// The underlying index, for the caller to search and to save it.
    pub fn inner(&self) -> (index: &usearch::Index)
        ensures
            index_keys(*index) == self.keys(),
            index_limit(*index) == self.limit(),
            index_dimensions(*index) == self.width(),
    {
        &self.inner
    }

    /// The underlying index, for the caller to add vectors and to load a
    /// saved index. Nothing is known afterwards of what the index holds.
    pub fn inner_mut(&mut self) -> (index: &mut usearch::Index)
        ensures
            index_keys(*index) == old(self).keys(),
            index_limit(*index) == old(self).limit(),
            index_dimensions(*index) == old(self).width(),
            index_keys(*final(index)) == final(self).keys(),
            index_limit(*final(index)) == final(self).limit(),
            index_dimensions(*final(index)) == final(self).width(),
    {
        &mut self.inner
    }

    /// Number of components of the vectors that the index takes.
    pub fn dimensions(&self) -> (n: usize)
        ensures
            n == self.width(),
    {
        index_dimensions_of(&self.inner)
    }

    /// Number of vectors held.
    pub fn size(&self) -> (n: usize)
        ensures
            n == self.held(),
    {
        index_size(&self.inner)
    }

    /// Number of vectors the index can hold before it must grow.
    pub fn capacity(&self) -> (n: usize)
        ensures
            n == self.limit(),
    {
        index_capacity(&self.inner)
    }

    /// Checks an index that was filled elsewhere, from a saved file above
    /// all: it has to take vectors of `dimensions` components and must not
    /// hold more vectors than it has room for.
    pub fn validate(&self, dimensions: usize) -> (r: Result<(), IndexError>)
        ensures
            r is Ok <==> self.width() == dimensions && self.held() <= self.limit(),
            r matches Err(e) ==> e == (if self.width() != dimensions {
                IndexError::WrongDimensions
            } else {
                IndexError::Overfull
            }),
    {
        if self.dimensions() != dimensions {
            Err(IndexError::WrongDimensions)
        } else if self.size() > self.capacity() {
            Err(IndexError::Overfull)
        } else {
            Ok(())
        }
    }

    /// Asks the index for room for `capacity` vectors in all, those already
    /// held included. The vectors held stay, and the capacity never shrinks,
    /// whether or not the index could grow.
    pub fn reserve(&mut self, capacity: usize) -> (r: Result<(), IndexError>)
        ensures
            final(self).keys() == old(self).keys(),
            final(self).width() == old(self).width(),
            final(self).limit() >= old(self).limit(),
            r is Ok ==> final(self).limit() >= capacity,
            r matches Err(e) ==> e is Backend,
    {
        match index_reserve(&mut self.inner, capacity) {
            Ok(()) => Ok(()),
            Err(message) => Err(IndexError::Backend(message)),
        }
    }

    /// Makes room for one more vector; to be called before every insert.
    ///
    /// An index that is more than one slot away from full (`must_grow`) is
    /// left alone. Otherwise it is asked for `growth_target` slots, and
    /// `room_after_growth` decides on what it then has. On success there is
    /// a free slot. The vectors held stay and the capacity never shrinks,
    /// whatever the outcome.
    pub fn ensure_room(&mut self) -> (r: Result<(), IndexError>)
        ensures
            final(self).keys() == old(self).keys(),
            final(self).width() == old(self).width(),
            final(self).limit() >= old(self).limit(),
            !needs_growth(old(self).held(), old(self).limit()) ==> r is Ok
                && *final(self) == *old(self),
            r is Ok ==> final(self).held() < final(self).limit(),
            r is Ok && needs_growth(old(self).held(), old(self).limit())
                ==> final(self).limit() >= old(self).limit() + GROWTH_INCREMENT,
            needs_growth(old(self).held(), old(self).limit()) && old(self).limit()
                + GROWTH_INCREMENT > usize::MAX ==> (r matches Err(IndexError::CapacityOverflow))
                && *final(self) == *old(self),
            r matches Err(IndexError::CapacityOverflow) ==> old(self).limit() + GROWTH_INCREMENT
                > usize::MAX,
            r matches Err(IndexError::Full) ==> final(self).held() >= final(self).limit(),
            r matches Err(IndexError::Backend(_)) ==> needs_growth(
                old(self).held(),
                old(self).limit(),
            ) && old(self).limit() + GROWTH_INCREMENT <= usize::MAX,
    {
        let capacity = self.capacity();
        if !must_grow(self.size(), capacity) {
            return Ok(());
        }
        let target = match growth_target(capacity) {
            None => {
                return Err(IndexError::CapacityOverflow);
            },
            Some(target) => target,
        };
        match self.reserve(target) {
            Err(e) => Err(e),
            Ok(()) => room_after_growth(self.size(), self.capacity()),
        }
    }
}

} // verus!
