//! The layout of the backing file.
//!
//! The file is a flat array of slots, each `T::width()` bytes wide, in index
//! order, with nothing before, between or after them. No length is stored: a
//! file that holds `k` whole slots is read as `k` elements.

use crate::element::Element;
use vstd::prelude::*;

verus! {

/// The bytes of slot `i`.
pub open spec fn slot<T: Element>(bytes: Seq<u8>, i: int) -> Seq<u8> {
    bytes.subrange(i * T::width(), (i + 1) * T::width())
}

/// The values that the first `count` slots of `bytes` hold.
pub open spec fn elements<T: Element>(bytes: Seq<u8>, count: nat) -> Seq<T> {
    Seq::new(count, |i: int| T::decoded(slot::<T>(bytes, i)))
}

/// The number of whole slots in a file of `file_len` bytes.
pub open spec fn whole_slots(file_len: nat, width: nat) -> nat {
    file_len / width
}

/// `bytes` with slot `i` holding `value`, and every other byte as it was.
pub open spec fn with_slot<T: Element>(bytes: Seq<u8>, i: int, value: T) -> Seq<u8> {
    bytes.subrange(0, i * T::width()) + value.encoded() + bytes.subrange(
        (i + 1) * T::width(),
        bytes.len() as int,
    )
}

/// Slots lie one after the other: slot `i` ends `width` bytes after it starts,
/// and no later than slot `j` starts if `i` comes before `j`.
pub proof fn lemma_slot_bounds(i: int, j: int, width: nat)
    requires
        0 <= i <= j,
    ensures
        0 <= i * width,
        (i + 1) * width == i * width + width,
        i < j ==> (i + 1) * width <= j * width,
        i * width <= j * width,
{
    assert(0 <= i * width) by (nonlinear_arith)
        requires
            0 <= i,
    ;
    assert((i + 1) * width == i * width + width) by (nonlinear_arith);
    assert(i * width <= j * width) by (nonlinear_arith)
        requires
            i <= j,
    ;
    if i < j {
        assert((i + 1) * width <= j * width) by (nonlinear_arith)
            requires
                i + 1 <= j,
        ;
    }
}

/// A file holds as many whole slots as fit into it, and not one more.
pub proof fn lemma_whole_slots(total: nat, width: nat)
    requires
        0 < width,
    ensures
        whole_slots(total, width) * width <= total < (whole_slots(total, width) + 1) * width,
        total % width == 0 ==> whole_slots(total, width) * width == total,
{
    assert((total / width) * width <= total < (total / width + 1) * width && (total % width == 0
        ==> (total / width) * width == total)) by (nonlinear_arith)
        requires
            0 < width,
    ;
}

/// A file of exactly `count` slots holds `count` whole slots.
pub proof fn lemma_whole_slots_exact(count: nat, width: nat)
    requires
        0 < width,
    ensures
        whole_slots(count * width, width) == count,
        (count * width) % width == 0,
{
    assert((count * width) / width == count && (count * width) % width == 0) by (nonlinear_arith)
        requires
            0 < width,
    ;
}

/// Writing slot `i` is seen in slot `i` and in no other slot.
pub proof fn lemma_with_slot<T: Element>(bytes: Seq<u8>, i: int, value: T, j: int)
    requires
        0 <= i,
        (i + 1) * T::width() <= bytes.len(),
        0 <= j,
        (j + 1) * T::width() <= bytes.len(),
    ensures
        with_slot::<T>(bytes, i, value).len() == bytes.len(),
        slot::<T>(with_slot::<T>(bytes, i, value), j) == if j == i {
            value.encoded()
        } else {
            slot::<T>(bytes, j)
        },
{
    let width = T::width();
    value.lemma_round_trip();
    lemma_slot_bounds(i, i, width);
    lemma_slot_bounds(j, j, width);
    if i < j {
        lemma_slot_bounds(i, j, width);
    }
    if j < i {
        lemma_slot_bounds(j, i, width);
    }
    let written = with_slot::<T>(bytes, i, value);
    assert(written.len() == bytes.len());
    if j == i {
        assert(slot::<T>(written, j) =~= value.encoded());
    } else {
        assert(slot::<T>(written, j) =~= slot::<T>(bytes, j));
    }
}

/// Writing slot `i` replaces element `i` and keeps the other elements.
pub proof fn lemma_elements_with_slot<T: Element>(bytes: Seq<u8>, count: nat, i: int, value: T)
    requires
        0 <= i < count,
        count * T::width() <= bytes.len(),
    ensures
        elements::<T>(with_slot::<T>(bytes, i, value), count) == elements::<T>(
            bytes,
            count,
        ).update(i, value),
{
    let width = T::width();
    let written = with_slot::<T>(bytes, i, value);
    value.lemma_round_trip();
    lemma_slot_bounds(i, count as int, width);
    assert forall|j: int| 0 <= j < count implies #[trigger] elements::<T>(written, count)[j]
        == elements::<T>(bytes, count).update(i, value)[j] by {
        lemma_slot_bounds(j, count as int, width);
        lemma_with_slot::<T>(bytes, i, value, j);
    }
    assert(elements::<T>(written, count) =~= elements::<T>(bytes, count).update(i, value));
}

/// Writing the slot just after `count` elements appends to them.
pub proof fn lemma_elements_appended<T: Element>(bytes: Seq<u8>, count: nat, value: T)
    requires
        (count + 1) * T::width() <= bytes.len(),
    ensures
        elements::<T>(with_slot::<T>(bytes, count as int, value), count + 1) == elements::<T>(
            bytes,
            count,
        ).push(value),
{
    let width = T::width();
    let written = with_slot::<T>(bytes, count as int, value);
    value.lemma_round_trip();
    assert forall|j: int| 0 <= j < count + 1 implies #[trigger] elements::<T>(
        written,
        count + 1,
    )[j] == elements::<T>(bytes, count).push(value)[j] by {
        lemma_slot_bounds(j, count as int, width);
        lemma_slot_bounds(count as int, count as int, width);
        lemma_with_slot::<T>(bytes, count as int, value, j);
    }
    assert(elements::<T>(written, count + 1) =~= elements::<T>(bytes, count).push(value));
}

/// The elements depend only on the bytes of their own slots.
pub proof fn lemma_elements_of_prefix<T: Element>(a: Seq<u8>, b: Seq<u8>, count: nat)
    requires
        count * T::width() <= a.len(),
        count * T::width() <= b.len(),
        a.subrange(0, (count * T::width()) as int) == b.subrange(0, (count * T::width()) as int),
    ensures
        elements::<T>(a, count) == elements::<T>(b, count),
{
    let width = T::width();
    let live = (count * width) as int;
    assert forall|j: int| 0 <= j < count implies #[trigger] elements::<T>(a, count)[j]
        == elements::<T>(b, count)[j] by {
        lemma_slot_bounds(j, count as int, width);
        assert(slot::<T>(a, j) =~= a.subrange(0, live).subrange(j * width, (j + 1) * width));
        assert(slot::<T>(b, j) =~= b.subrange(0, live).subrange(j * width, (j + 1) * width));
    }
    assert(elements::<T>(a, count) =~= elements::<T>(b, count));
}

/// Reads the element in slot `i`.
pub(crate) fn read_slot<T: Element>(bytes: &[u8], i: usize) -> (value: T)
    requires
        (i + 1) * T::width() <= bytes@.len(),
    ensures
        value == T::decoded(slot::<T>(bytes@, i as int)),
{
    let width = T::byte_width();
    proof {
        lemma_slot_bounds(i as int, i as int, T::width());
        vstd::slice::axiom_spec_len(bytes);
    }
    let start = i * width;
    T::decode(vstd::slice::slice_subrange(bytes, start, start + width))
}

/// Writes `value` into slot `i`, byte for byte.
pub(crate) fn write_slot<T: Element>(bytes: &mut [u8], i: usize, value: T)
    requires
        (i + 1) * T::width() <= old(bytes)@.len(),
    ensures
        final(bytes)@ == with_slot::<T>(old(bytes)@, i as int, value),
{
    let width = T::byte_width();
    let encoded = value.encode();
    proof {
        value.lemma_round_trip();
        lemma_slot_bounds(i as int, i as int, T::width());
        vstd::slice::axiom_spec_len(&*bytes);
    }
    let start = i * width;
    let ghost before = bytes@;
    let mut k: usize = 0;
    while k < width
        invariant
            k <= width,
            encoded@.len() == width,
            start + width <= before.len() <= usize::MAX,
            bytes@.len() == before.len(),
            forall|j: int|
                0 <= j < before.len() ==> bytes@[j] == if start <= j < start + k {
                    encoded@[j - start]
                } else {
                    before[j]
                },
        decreases width - k,
    {
        bytes[start + k] = encoded[k];
        k += 1;
    }
    assert(bytes@ =~= with_slot::<T>(before, i as int, value));
}

/// Tells whether two runs of bytes agree in their first `count` bytes.
pub(crate) fn same_prefix(a: &[u8], b: &[u8], count: usize) -> (same: bool)
    requires
        count <= a@.len(),
        count <= b@.len(),
    ensures
        same <==> a@.subrange(0, count as int) == b@.subrange(0, count as int),
{
    let mut k: usize = 0;
    while k < count
        invariant
            k <= count,
            count <= a@.len(),
            count <= b@.len(),
            a@.subrange(0, k as int) == b@.subrange(0, k as int),
        decreases count - k,
    {
        if a[k] != b[k] {
            assert(a@.subrange(0, count as int)[k as int] != b@.subrange(0, count as int)[k as int]);
            return false;
        }
        assert(a@.subrange(0, k + 1) =~= a@.subrange(0, k as int).push(a@[k as int]));
        assert(b@.subrange(0, k + 1) =~= b@.subrange(0, k as int).push(b@[k as int]));
        k += 1;
    }
    true
}

} // verus!
