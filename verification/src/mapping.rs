//! The mapping of the backing file, as far as the container relies on it.
//!
//! Nothing in this module is proved. Each item states what the container takes
//! from `memmap2` on trust: that a mapping is a run of bytes of fixed length,
//! read and written in place, which nobody else changes while the container
//! holds it.

use memmap2::MmapMut;
use vstd::prelude::*;

verus! {

/// `memmap2::MmapMut`, a writable mapping. Its inside is not looked into.
#[verifier::external_type_specification]
#[verifier::external_body]
pub struct ExMmapMut(MmapMut);

/// `std::io::Error`, as `MmapMut::flush` reports it. Only carried, never read.
#[verifier::external_type_specification]
#[verifier::external_body]
pub struct ExIoError(std::io::Error);

/// The bytes that a mapping shows, from its first to its last.
pub uninterp spec fn mapped_bytes(map: &MmapMut) -> Seq<u8>;

/// `<MmapMut as Deref>::deref`: the mapped bytes as a slice, all of them and in
/// order.
#[verifier::external_body]
pub(crate) fn bytes_of(map: &MmapMut) -> (bytes: &[u8])
    ensures
        bytes@ == mapped_bytes(map),
{
    std::ops::Deref::deref(map)
}

/// `<MmapMut as DerefMut>::deref_mut`: the mapped bytes as a slice to write
/// through. A slice keeps its length, and the mapping shows whatever the slice
/// is left holding. The call only forms the slice, so it cannot panic.
#[verifier::external_body]
pub(crate) fn bytes_of_mut(map: &mut MmapMut) -> (bytes: &mut [u8])
    ensures
        bytes@ == mapped_bytes(old(map)),
        final(bytes)@.len() == bytes@.len(),
        mapped_bytes(final(map)) == final(bytes)@,
    no_unwind
{
    std::ops::DerefMut::deref_mut(map)
}

/// `MmapMut::flush`: writes the mapped bytes back to the file. Whether that
/// succeeds is up to the system, so nothing is promised of the result; the
/// mapping is only read.
#[verifier::external_body]
pub(crate) fn flush(map: &MmapMut) -> (done: Result<(), std::io::Error>) {
    map.flush()
}

} // verus!
