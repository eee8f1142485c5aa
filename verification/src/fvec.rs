//! The container: a length, a capacity, and a mapping that holds the slots.

use crate::element::Element;
use crate::error::{io_outcome, FVecError};
use crate::layout::{
    elements, lemma_elements_appended, lemma_elements_of_prefix, lemma_slot_bounds,
    lemma_whole_slots, lemma_whole_slots_exact, same_prefix, whole_slots, with_slot, write_slot,
};
use crate::mapping::{bytes_of, bytes_of_mut, flush, mapped_bytes};
use crate::plan::{capacity_after_push, grown_capacity, plan_growth, Growth};
use crate::slice::{Slice, SliceMut};
use memmap2::MmapMut;
use std::marker::PhantomData;
use vstd::prelude::*;

verus! {

/// How a call of `push` ended.
#[derive(Clone, Copy, Debug, PartialEq, Eq, Structural)]
pub enum Pushed {
    /// The element is stored and counted.
    Stored,
    /// Every slot is taken and nothing was stored. The file has to be extended
    /// as the plan says and mapped anew; after `grow_to` with that mapping the
    /// element can be pushed.
    Full(Growth),
}

/// A growable array over a mapping of its backing file.
///
/// The first `len` slots of the mapping are the elements; the slots from
/// `len` up to `capacity` are spare, and what they hold means nothing. The
/// mapping always covers exactly `capacity` slots.
pub struct FVec<T: Element> {
    map: MmapMut,
    capacity: usize,
    len: usize,
    marker: PhantomData<T>,
}

/// Whether a mapping of `total` bytes can carry a container of `len`
/// elements: it is made of whole slots, at least one, and at least `len`.
pub open spec fn can_hold(total: nat, width: nat, len: nat) -> bool {
    &&& 0 < total
    &&& total % width == 0
    &&& len <= whole_slots(total, width)
}

impl<T: Element> View for FVec<T> {
    type V = Seq<T>;

    /// The elements, in the order in which they were pushed.
    open spec fn view(&self) -> Seq<T> {
        elements::<T>(self.storage(), self.spec_len())
    }
}

impl<T: Element> FVec<T> {
    /// What holds of every container: it has at least one slot, no more
    /// elements than slots, and a mapping of exactly its slots.
    #[verifier::type_invariant]
    pub closed spec fn wf(&self) -> bool {
        &&& 0 < self.capacity
        &&& self.len <= self.capacity
        &&& mapped_bytes(&self.map).len() == self.capacity * T::width()
        &&& self.capacity * T::width() <= usize::MAX
    }

    /// The mapped bytes, spare slots included.
    pub closed spec fn storage(&self) -> Seq<u8> {
        mapped_bytes(&self.map)
    }

    pub closed spec fn spec_len(&self) -> nat {
        self.len as nat
    }

    pub closed spec fn spec_capacity(&self) -> nat {
        self.capacity as nat
    }

    /// The facts of `wf`, over the container's public measures.
    pub proof fn lemma_wf(&self)
        requires
            self.wf(),
        ensures
            0 < self.spec_capacity(),
            self.spec_len() <= self.spec_capacity(),
            self.storage().len() == self.spec_capacity() * T::width() <= usize::MAX,
            self@.len() == self.spec_len(),
    {
    }

    /// Makes the container over `map`, with the first `len` slots as its
    /// elements. Fails with `Mapping`, and only then, if the mapping cannot
    /// hold that many elements, is empty, or ends within a slot.
    pub fn from_mapping(map: MmapMut, len: usize) -> (made: Result<FVec<T>, FVecError>)
        ensures
            made is Ok <==> can_hold(mapped_bytes(&map).len(), T::width(), len as nat),
            made matches Ok(v) ==> {
                &&& v.wf()
                &&& v.storage() == mapped_bytes(&map)
                &&& v.spec_len() == len
                &&& v.spec_capacity() == whole_slots(mapped_bytes(&map).len(), T::width())
            },
            made matches Err(e) ==> e == FVecError::Mapping,
    {
        let width = T::byte_width();
        proof {
            T::lemma_width();
            lemma_whole_slots(mapped_bytes(&map).len(), T::width());
        }
        let total = bytes_of(&map).len();
        if total == 0 || total % width != 0 {
            return Err(FVecError::Mapping);
        }
        let capacity = total / width;
        if len > capacity {
            return Err(FVecError::Mapping);
        }
        assert(capacity > 0) by (nonlinear_arith)
            requires
                capacity * width == total,
                total > 0,
        ;
        Ok(FVec { map, capacity, len, marker: PhantomData })
    }

    /// The number of elements.
    pub fn len(&self) -> (n: usize)
        ensures
            n == self.spec_len(),
            n == self@.len(),
    {
        self.len
    }

    /// The number of slots that the mapping covers.
    pub fn capacity(&self) -> (n: usize)
        ensures
            n == self.spec_capacity(),
            n >= self.spec_len(),
            n > 0,
    {
        proof {
            use_type_invariant(self);
        }
        self.capacity
    }

    pub fn is_empty(&self) -> (empty: bool)
        ensures
            empty <==> self@.len() == 0,
    {
        self.len == 0
    }

    /// The size that the file is to have once the container is gone, so that
    /// it holds the elements and nothing else: opened again, it gives a
    /// container of the same elements.
    pub fn persisted_bytes(&self) -> (bytes: u64)
        ensures
            bytes == self.spec_len() * T::width(),
    {
        proof {
            use_type_invariant(self);
            lemma_slot_bounds(self.len as int, self.capacity as int, T::width());
        }
        (self.len * T::byte_width()) as u64
    }

    /// A read-only window over the elements, and over nothing after them.
    pub fn as_slice(&self) -> (window: Slice<'_, T>)
        ensures
            window@ == self@,
            window.bytes@ == self.storage().subrange(0, (self.spec_len() * T::width()) as int),
    {
        let width = T::byte_width();
        proof {
            use_type_invariant(self);
            T::lemma_width();
            lemma_slot_bounds(self.len as int, self.capacity as int, T::width());
            lemma_whole_slots_exact(self.len as nat, T::width());
        }
        let live = vstd::slice::slice_subrange(bytes_of(&self.map), 0, self.len * width);
        proof {
            let count = (self.len * T::width()) as int;
            assert(live@.subrange(0, count) =~= self.storage().subrange(0, count));
            lemma_elements_of_prefix::<T>(live@, self.storage(), self.len as nat);
        }
        Slice { bytes: live, marker: PhantomData }
    }

    /// A window over the elements through which they can be replaced in
    /// place. What is written through the window is what the container holds
    /// once the window is gone; its length and capacity stay.
    pub fn as_slice_mut(&mut self) -> (window: SliceMut<'_, T>)
        ensures
            window@ == old(self)@,
            window.bytes@ == old(self).storage().subrange(
                0,
                (old(self).spec_len() * T::width()) as int,
            ),
            final(self).storage() == final(window.bytes)@ + old(self).storage().subrange(
                (old(self).spec_len() * T::width()) as int,
                old(self).storage().len() as int,
            ),
            final(self)@ == elements::<T>(
                final(window.bytes)@,
                whole_slots(final(window.bytes)@.len(), T::width()),
            ),
            final(self).spec_len() == old(self).spec_len(),
            final(self).spec_capacity() == old(self).spec_capacity(),
            final(window.bytes)@.len() == window.bytes@.len(),
    {
        let width = T::byte_width();
        proof {
            use_type_invariant(&*self);
            T::lemma_width();
            lemma_slot_bounds(self.len as int, self.capacity as int, T::width());
            lemma_whole_slots_exact(self.len as nat, T::width());
        }
        let ghost before = mapped_bytes(&self.map);
        let (live, spare) = bytes_of_mut(&mut self.map).split_at_mut(self.len * width);
        proof {
            let count = (self.len * T::width()) as int;
            assert(live@.subrange(0, count) =~= before.subrange(0, count));
            lemma_elements_of_prefix::<T>(live@, before, self.len as nat);
            let after = final(live)@ + spare@;
            assert(after.subrange(0, count) =~= final(live)@.subrange(0, count));
            lemma_elements_of_prefix::<T>(after, final(live)@, self.len as nat);
        }
        SliceMut { bytes: live, marker: PhantomData }
    }

    /// The element at `i`, or `IndexOutOfBounds` if there is none: a spare slot
    /// is never read.
    pub fn get(&self, i: usize) -> (got: Result<T, FVecError>)
        ensures
            i < self@.len() ==> got == Ok::<T, FVecError>(self@[i as int]),
            i >= self@.len() ==> got == Err::<T, FVecError>(FVecError::IndexOutOfBounds),
    {
        self.as_slice().get(i)
    }

    /// Replaces the element at `i`, or fails with `IndexOutOfBounds` and
    /// leaves the container as it was if there is none.
    pub fn set(&mut self, i: usize, value: T) -> (done: Result<(), FVecError>)
        ensures
            i < old(self)@.len() ==> done == Ok::<(), FVecError>(()) && final(self)@ == old(
                self,
            )@.update(i as int, value),
            i >= old(self)@.len() ==> done == Err::<(), FVecError>(FVecError::IndexOutOfBounds)
                && *final(self) == *old(self),
            final(self).spec_len() == old(self).spec_len(),
            final(self).spec_capacity() == old(self).spec_capacity(),
    {
        if i >= self.len {
            return Err(FVecError::IndexOutOfBounds);
        }
        let mut window = self.as_slice_mut();
        window.set(i, value)
    }

    /// Appends `value` if a slot is free. If none is, nothing changes and the
    /// result says how the file has to grow first; if the grown file could not
    /// be addressed on this machine, the call fails with `Mapping`.
    pub fn push(&mut self, value: T) -> (pushed: Result<Pushed, FVecError>)
        ensures
            match pushed {
                Ok(Pushed::Stored) => {
                    &&& old(self).spec_len() < old(self).spec_capacity()
                    &&& final(self)@ == old(self)@.push(value)
                    &&& final(self).spec_len() == old(self).spec_len() + 1
                    &&& final(self).spec_capacity() == capacity_after_push(
                        old(self).spec_capacity(),
                        old(self).spec_len(),
                    )
                    &&& final(self).storage() == with_slot::<T>(
                        old(self).storage(),
                        old(self).spec_len() as int,
                        value,
                    )
                },
                Ok(Pushed::Full(growth)) => {
                    &&& old(self).spec_len() == old(self).spec_capacity()
                    &&& *final(self) == *old(self)
                    &&& growth.capacity == capacity_after_push(
                        old(self).spec_capacity(),
                        old(self).spec_len(),
                    )
                    &&& growth.file_bytes == growth.capacity * T::width()
                },
                Err(e) => {
                    &&& e == FVecError::Mapping
                    &&& old(self).spec_len() == old(self).spec_capacity()
                    &&& *final(self) == *old(self)
                    &&& grown_capacity(old(self).spec_capacity()) * T::width() > usize::MAX
                },
            },
            final(self).spec_capacity() >= old(self).spec_capacity(),
            final(self).spec_len() <= final(self).spec_capacity(),
    {
        proof {
            use_type_invariant(&*self);
        }
        if self.len == self.capacity {
            return match plan_growth::<T>(self.capacity) {
                Ok(growth) => Ok(Pushed::Full(growth)),
                Err(e) => Err(e),
            };
        }
        let at = self.len;
        proof {
            lemma_slot_bounds(at as int + 1, self.capacity as int, T::width());
            lemma_elements_appended::<T>(mapped_bytes(&self.map), at as nat, value);
        }
        write_slot::<T>(bytes_of_mut(&mut self.map), at, value);
        self.len = at + 1;
        Ok(Pushed::Stored)
    }

    /// Takes over the mapping of the extended file. This is the whole of
    /// growing: the container has the old capacity and the old mapping, or the
    /// new capacity and the new mapping, never one without the other.
    ///
    /// The mapping is accepted, and only then, if the container is full, the
    /// mapping covers exactly twice the slots, and it starts with the bytes
    /// that the container holds. Otherwise the call fails with `Mapping` and
    /// the container is as it was.
    pub fn grow_to(&mut self, map: MmapMut) -> (grown: Result<(), FVecError>)
        ensures
            grown is Ok <==> {
                &&& old(self).spec_len() == old(self).spec_capacity()
                &&& mapped_bytes(&map).len() == grown_capacity(old(self).spec_capacity())
                    * T::width()
                &&& mapped_bytes(&map).subrange(0, old(self).storage().len() as int) == old(
                    self,
                ).storage()
            },
            grown is Ok ==> {
                &&& final(self).storage() == mapped_bytes(&map)
                &&& final(self).spec_len() == old(self).spec_len()
                &&& final(self).spec_capacity() == capacity_after_push(
                    old(self).spec_capacity(),
                    old(self).spec_len(),
                )
                &&& final(self)@ == old(self)@
            },
            grown matches Err(e) ==> e == FVecError::Mapping && *final(self) == *old(self),
            final(self).spec_capacity() >= old(self).spec_capacity(),
            final(self).spec_len() <= final(self).spec_capacity(),
    {
        proof {
            use_type_invariant(&*self);
            T::lemma_width();
        }
        if self.len != self.capacity {
            return Err(FVecError::Mapping);
        }
        let fresh = bytes_of(&map);
        let held = bytes_of(&self.map);
        let growth = match plan_growth::<T>(self.capacity) {
            Ok(growth) => growth,
            Err(e) => {
                proof {
                    vstd::slice::axiom_spec_len(fresh);
                }
                return Err(e);
            },
        };
        if fresh.len() != growth.capacity * T::byte_width() {
            return Err(FVecError::Mapping);
        }
        proof {
            lemma_slot_bounds(self.capacity as int, growth.capacity as int, T::width());
        }
        if !same_prefix(fresh, held, held.len()) {
            assert(held@.subrange(0, held@.len() as int) =~= held@);
            return Err(FVecError::Mapping);
        }
        proof {
            assert(held@.subrange(0, held@.len() as int) =~= held@);
            lemma_elements_of_prefix::<T>(fresh@, held@, self.len as nat);
        }
        *self = FVec { map, capacity: growth.capacity, len: self.len, marker: PhantomData };
        Ok(())
    }

    /// Writes the mapped bytes back to the file and waits until that is done.
    /// Whether it succeeds is up to the system; a failure is reported as `Io`.
    /// The container is the same either way.
    pub fn sync(&self) -> (done: Result<(), FVecError>)
        ensures
            done matches Err(e) ==> e == FVecError::Io,
    {
        io_outcome(flush(&self.map))
    }
}

} // verus!
