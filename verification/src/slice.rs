//! Typed windows over a run of slots.
//!
//! A window borrows the bytes it ranges over, so it has the length it was made
//! with for as long as it lives, and the container cannot grow under it.

use crate::element::Element;
use crate::error::FVecError;
use crate::layout::{
    elements, lemma_elements_with_slot, lemma_slot_bounds, lemma_whole_slots, lemma_with_slot,
    read_slot, whole_slots, with_slot, write_slot,
};
use std::marker::PhantomData;
use vstd::prelude::*;

verus! {

/// A read-only window over the whole slots of `bytes`.
pub struct Slice<'a, T: Element> {
    pub bytes: &'a [u8],
    pub marker: PhantomData<T>,
}

/// A window over the whole slots of `bytes` through which elements can be
/// replaced in place.
pub struct SliceMut<'a, T: Element> {
    pub bytes: &'a mut [u8],
    pub marker: PhantomData<T>,
}

impl<'a, T: Element> View for Slice<'a, T> {
    type V = Seq<T>;

    open spec fn view(&self) -> Seq<T> {
        elements::<T>(self.bytes@, whole_slots(self.bytes@.len(), T::width()))
    }
}

impl<'a, T: Element> View for SliceMut<'a, T> {
    type V = Seq<T>;

    open spec fn view(&self) -> Seq<T> {
        elements::<T>(self.bytes@, whole_slots(self.bytes@.len(), T::width()))
    }
}

impl<'a, T: Element> Slice<'a, T> {
    /// The number of elements in the window.
    pub fn len(&self) -> (n: usize)
        ensures
            n == self@.len(),
    {
        proof {
            T::lemma_width();
        }
        self.bytes.len() / T::byte_width()
    }

    pub fn is_empty(&self) -> (empty: bool)
        ensures
            empty <==> self@.len() == 0,
    {
        self.len() == 0
    }

    /// The element at `i`, or `IndexOutOfBounds` if the window ends before it.
    pub fn get(&self, i: usize) -> (got: Result<T, FVecError>)
        ensures
            i < self@.len() ==> got == Ok::<T, FVecError>(self@[i as int]),
            i >= self@.len() ==> got == Err::<T, FVecError>(FVecError::IndexOutOfBounds),
    {
        if i < self.len() {
            proof {
                T::lemma_width();
                lemma_whole_slots(self.bytes@.len(), T::width());
                lemma_slot_bounds(i as int, self@.len() as int, T::width());
            }
            Ok(read_slot::<T>(self.bytes, i))
        } else {
            Err(FVecError::IndexOutOfBounds)
        }
    }

    /// The elements of the window, copied out in order.
    pub fn to_vec(&self) -> (copied: Vec<T>)
        ensures
            copied@ == self@,
    {
        let count = self.len();
        let mut copied: Vec<T> = Vec::new();
        let mut i: usize = 0;
        while i < count
            invariant
                i <= count,
                count == self@.len(),
                copied@ == self@.subrange(0, i as int),
            decreases count - i,
        {
            proof {
                T::lemma_width();
                lemma_whole_slots(self.bytes@.len(), T::width());
                lemma_slot_bounds(i as int, count as int, T::width());
            }
            let value = read_slot::<T>(self.bytes, i);
            copied.push(value);
            assert(copied@ =~= self@.subrange(0, i + 1));
            i += 1;
        }
        assert(copied@ =~= self@);
        copied
    }
}

impl<'a, T: Element> SliceMut<'a, T> {
    /// The number of elements in the window.
    pub fn len(&self) -> (n: usize)
        ensures
            n == self@.len(),
    {
        proof {
            T::lemma_width();
        }
        self.bytes.len() / T::byte_width()
    }

    pub fn is_empty(&self) -> (empty: bool)
        ensures
            empty <==> self@.len() == 0,
    {
        self.len() == 0
    }

    /// The element at `i`, or `IndexOutOfBounds` if the window ends before it.
    pub fn get(&self, i: usize) -> (got: Result<T, FVecError>)
        ensures
            i < self@.len() ==> got == Ok::<T, FVecError>(self@[i as int]),
            i >= self@.len() ==> got == Err::<T, FVecError>(FVecError::IndexOutOfBounds),
    {
        if i < self.len() {
            proof {
                T::lemma_width();
                lemma_whole_slots(self.bytes@.len(), T::width());
                lemma_slot_bounds(i as int, self@.len() as int, T::width());
            }
            Ok(read_slot::<T>(self.bytes, i))
        } else {
            Err(FVecError::IndexOutOfBounds)
        }
    }

    /// Replaces the element at `i`, or fails with `IndexOutOfBounds` and
    /// changes nothing if the window ends before it. The window stays over
    /// the same bytes.
    pub fn set(&mut self, i: usize, value: T) -> (done: Result<(), FVecError>)
        ensures
            i < old(self)@.len() ==> done == Ok::<(), FVecError>(()) && final(self)@ == old(
                self,
            )@.update(i as int, value) && final(self).bytes@ == with_slot::<T>(
                old(self).bytes@,
                i as int,
                value,
            ),
            i >= old(self)@.len() ==> done == Err::<(), FVecError>(FVecError::IndexOutOfBounds)
                && final(self).bytes@ == old(self).bytes@,
            final(final(self).bytes)@ == final(old(self).bytes)@,
    {
        if i < self.len() {
            proof {
                T::lemma_width();
                lemma_whole_slots(self.bytes@.len(), T::width());
                lemma_slot_bounds(i as int, self@.len() as int, T::width());
                lemma_elements_with_slot::<T>(self.bytes@, self@.len(), i as int, value);
                lemma_with_slot::<T>(self.bytes@, i as int, value, i as int);
            }
            write_slot::<T>(self.bytes, i, value);
            Ok(())
        } else {
            Err(FVecError::IndexOutOfBounds)
        }
    }
}

} // verus!
