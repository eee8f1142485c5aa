//! What holds of the container over any run of operations.
//!
//! The operations state their effect on the elements and on the capacity one
//! call at a time. The laws here follow those effects over many calls, and
//! from one life of the file to the next.

use crate::element::Element;
use crate::fvec::{can_hold, FVec};
use crate::layout::{
    elements, lemma_elements_of_prefix, lemma_slot_bounds, lemma_whole_slots_exact, whole_slots,
};
use crate::plan::{capacity_after_push, opened_capacity, START_CAPACITY};
use vstd::arithmetic::power2::{lemma_pow2_unfold, pow2};
use vstd::prelude::*;

verus! {

/// The capacity of a container that started over an empty file and has had
/// `pushes` elements pushed.
pub open spec fn capacity_after_pushes(pushes: nat) -> nat
    decreases pushes,
{
    if pushes == 0 {
        START_CAPACITY as nat
    } else {
        capacity_after_push(capacity_after_pushes((pushes - 1) as nat), (pushes - 1) as nat)
    }
}

/// The elements after `values` are pushed, first to last, onto `start`.
pub open spec fn pushed_all<T>(start: Seq<T>, values: Seq<T>) -> Seq<T>
    decreases values.len(),
{
    if values.len() == 0 {
        start
    } else {
        pushed_all(start.push(values.first()), values.drop_first())
    }
}

/// Pushing appends: after any run of pushes the container holds what it held
/// before, followed by the pushed values in the order of the pushes.
pub proof fn law_append<T>(start: Seq<T>, values: Seq<T>)
    ensures
        pushed_all(start, values) == start + values,
    decreases values.len(),
{
    if values.len() == 0 {
        assert(start + values =~= start);
    } else {
        law_append(start.push(values.first()), values.drop_first());
        assert(start.push(values.first()) + values.drop_first() =~= start + values);
    }
}

/// A container that starts empty holds exactly the pushed values, in the
/// order of the pushes.
pub proof fn law_append_to_empty<T>(values: Seq<T>)
    ensures
        pushed_all(Seq::<T>::empty(), values) == values,
{
    law_append(Seq::<T>::empty(), values);
    assert(Seq::<T>::empty() + values =~= values);
}

/// A push never lowers the capacity, and leaves room for the element it adds.
pub proof fn law_capacity_monotone(capacity: nat, len: nat)
    requires
        0 < capacity,
        len <= capacity,
    ensures
        capacity_after_push(capacity, len) >= capacity,
        capacity_after_push(capacity, len) >= len + 1,
{
}

/// Growth is by doubling, and only when needed: after any number of pushes
/// onto a container that started over an empty file, the capacity is the
/// starting capacity doubled some number of times, it holds the elements, and
/// unless it is still the starting capacity, half of it would not hold them.
pub proof fn law_doubling(pushes: nat)
    ensures
        capacity_after_pushes(pushes) >= pushes,
        exists|doublings: nat|
            capacity_after_pushes(pushes) == START_CAPACITY * #[trigger] pow2(doublings),
        capacity_after_pushes(pushes) == START_CAPACITY || capacity_after_pushes(pushes) < 2
            * pushes,
    decreases pushes,
{
    if pushes == 0 {
        vstd::arithmetic::power2::lemma2_to64();
        assert(capacity_after_pushes(0) == START_CAPACITY * pow2(0));
    } else {
        let before = (pushes - 1) as nat;
        law_doubling(before);
        let doublings = choose|doublings: nat|
            capacity_after_pushes(before) == START_CAPACITY * #[trigger] pow2(doublings);
        if before < capacity_after_pushes(before) {
            assert(capacity_after_pushes(pushes) == START_CAPACITY * pow2(doublings));
        } else {
            lemma_pow2_unfold(doublings + 1);
            assert(capacity_after_pushes(pushes) == START_CAPACITY * pow2(doublings + 1))
                by (nonlinear_arith)
                requires
                    capacity_after_pushes(pushes) == 2 * capacity_after_pushes(before),
                    capacity_after_pushes(before) == START_CAPACITY * pow2(doublings),
                    pow2(doublings + 1) == 2 * pow2(doublings),
            ;
        }
    }
}

/// What is stored outlives the container: once the file is cut to the
/// container's `persisted_bytes` and opened again as `plan_open` says, the
/// mapping can carry a container of the same length, and its elements are the
/// same. A container without elements comes back without elements, however
/// often this is done.
pub proof fn law_reopen<T: Element>(v: FVec<T>, reopened: Seq<u8>)
    requires
        v.wf(),
        reopened.len() == opened_capacity(v.spec_len() * T::width(), T::width()) * T::width(),
        reopened.subrange(0, (v.spec_len() * T::width()) as int) == v.storage().subrange(
            0,
            (v.spec_len() * T::width()) as int,
        ),
    ensures
        whole_slots(v.spec_len() * T::width(), T::width()) == v.spec_len(),
        can_hold(reopened.len(), T::width(), v.spec_len()),
        elements::<T>(reopened, v.spec_len()) == v@,
{
    let width = T::width();
    let len = v.spec_len();
    let capacity = opened_capacity(len * width, width);
    T::lemma_width();
    v.lemma_wf();
    lemma_whole_slots_exact(len, width);
    lemma_whole_slots_exact(capacity, width);
    lemma_slot_bounds(len as int, capacity as int, width);
    lemma_slot_bounds(len as int, v.spec_capacity() as int, width);
    assert(0 < capacity * width) by (nonlinear_arith)
        requires
            0 < capacity,
            0 < width,
    ;
    lemma_elements_of_prefix::<T>(reopened, v.storage(), len);
}

} // verus!
