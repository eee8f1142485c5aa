//! Values that can be kept in a file: fixed-width, and free of anything that
//! would dangle once written out.

use vstd::bytes::*;
use vstd::prelude::*;

verus! {

/// A value that is stored as a fixed number of bytes.
///
/// Every value has exactly one byte form of `width()` bytes, and reading that
/// form back yields the value. Any `width()` bytes read as some value, so a
/// file never holds a slot that cannot be decoded.
pub trait Element: Copy {
    /// The number of bytes in one slot.
    spec fn width() -> nat;

    /// The byte form of a value.
    spec fn encoded(self) -> Seq<u8>;

    /// The value that a slot's bytes stand for.
    spec fn decoded(bytes: Seq<u8>) -> Self;

    /// A slot is never empty.
    proof fn lemma_width()
        ensures
            0 < Self::width(),
    ;

    /// The byte form fills one slot and reads back as the value.
    proof fn lemma_round_trip(self)
        ensures
            self.encoded().len() == Self::width(),
            Self::decoded(self.encoded()) == self,
    ;

    fn byte_width() -> (n: usize)
        ensures
            n == Self::width(),
    ;

    fn encode(self) -> (bytes: Vec<u8>)
        ensures
            bytes@ == self.encoded(),
    ;

    fn decode(bytes: &[u8]) -> (value: Self)
        requires
            bytes@.len() == Self::width(),
        ensures
            value == Self::decoded(bytes@),
    ;
}

impl Element for u8 {
    open spec fn width() -> nat {
        1
    }

    open spec fn encoded(self) -> Seq<u8> {
        seq![self]
    }

    open spec fn decoded(bytes: Seq<u8>) -> u8 {
        bytes[0]
    }

    proof fn lemma_width() {
    }

    proof fn lemma_round_trip(self) {
    }

    fn byte_width() -> (n: usize) {
        1
    }

    fn encode(self) -> (bytes: Vec<u8>) {
        let mut bytes: Vec<u8> = Vec::new();
        bytes.push(self);
        assert(bytes@ =~= seq![self]);
        bytes
    }

    fn decode(bytes: &[u8]) -> (value: u8) {
        bytes[0]
    }
}

/// Two bytes, least significant first.
impl Element for u16 {
    open spec fn width() -> nat {
        2
    }

    open spec fn encoded(self) -> Seq<u8> {
        spec_u16_to_le_bytes(self)
    }

    open spec fn decoded(bytes: Seq<u8>) -> u16 {
        spec_u16_from_le_bytes(bytes)
    }

    proof fn lemma_width() {
    }

    proof fn lemma_round_trip(self) {
        lemma_auto_spec_u16_to_from_le_bytes();
        assert(spec_u16_to_le_bytes(self).len() == 2);
    }

    fn byte_width() -> (n: usize) {
        2
    }

    fn encode(self) -> (bytes: Vec<u8>) {
        u16_to_le_bytes(self)
    }

    fn decode(bytes: &[u8]) -> (value: u16) {
        u16_from_le_bytes(bytes)
    }
}

/// Four bytes, least significant first.
impl Element for u32 {
    open spec fn width() -> nat {
        4
    }

    open spec fn encoded(self) -> Seq<u8> {
        spec_u32_to_le_bytes(self)
    }

    open spec fn decoded(bytes: Seq<u8>) -> u32 {
        spec_u32_from_le_bytes(bytes)
    }

    proof fn lemma_width() {
    }

    proof fn lemma_round_trip(self) {
        lemma_auto_spec_u32_to_from_le_bytes();
        assert(spec_u32_to_le_bytes(self).len() == 4);
    }

    fn byte_width() -> (n: usize) {
        4
    }

    fn encode(self) -> (bytes: Vec<u8>) {
        u32_to_le_bytes(self)
    }

    fn decode(bytes: &[u8]) -> (value: u32) {
        u32_from_le_bytes(bytes)
    }
}

/// Eight bytes, least significant first.
impl Element for u64 {
    open spec fn width() -> nat {
        8
    }

    open spec fn encoded(self) -> Seq<u8> {
        spec_u64_to_le_bytes(self)
    }

    open spec fn decoded(bytes: Seq<u8>) -> u64 {
        spec_u64_from_le_bytes(bytes)
    }

    proof fn lemma_width() {
    }

    proof fn lemma_round_trip(self) {
        lemma_auto_spec_u64_to_from_le_bytes();
    }

    fn byte_width() -> (n: usize) {
        8
    }

    fn encode(self) -> (bytes: Vec<u8>) {
        u64_to_le_bytes(self)
    }

    fn decode(bytes: &[u8]) -> (value: u64) {
        u64_from_le_bytes(bytes)
    }
}

/// Eight bytes, least significant first, whatever the platform's pointer
/// width, so that the file has one layout everywhere. Where `usize` is
/// narrower than that, a stored value that does not fit is read as its low
/// bits.
impl Element for usize {
    open spec fn width() -> nat {
        8
    }

    open spec fn encoded(self) -> Seq<u8> {
        spec_u64_to_le_bytes(self as u64)
    }

    open spec fn decoded(bytes: Seq<u8>) -> usize {
        spec_u64_from_le_bytes(bytes) as usize
    }

    proof fn lemma_width() {
    }

    proof fn lemma_round_trip(self) {
        lemma_auto_spec_u64_to_from_le_bytes();
    }

    fn byte_width() -> (n: usize) {
        8
    }

    fn encode(self) -> (bytes: Vec<u8>) {
        u64_to_le_bytes(self as u64)
    }

    fn decode(bytes: &[u8]) -> (value: usize) {
        #[verifier::truncate]
        (u64_from_le_bytes(bytes) as usize)
    }
}

} // verus!
