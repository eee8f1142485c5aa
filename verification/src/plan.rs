//! The sizes that the container asks of its backing file: how large the file
//! is made when it is opened, and how large when the container has to grow.

use crate::element::Element;
use crate::error::FVecError;
use crate::layout::whole_slots;
use vstd::prelude::*;

verus! {

/// The number of slots that a container over an empty file starts with.
pub const START_CAPACITY: usize = 8;

/// The file that a container is kept in when its owner names none.
pub const DEFAULT_PATH: &'static str = "./filevec.bin";

/// The capacity that a container opened over a file of `file_len` bytes has:
/// the slots that the file holds, or the starting capacity if it holds none.
pub open spec fn opened_capacity(file_len: nat, width: nat) -> nat {
    if whole_slots(file_len, width) == 0 {
        START_CAPACITY as nat
    } else {
        whole_slots(file_len, width)
    }
}

/// The capacity that a full container of `capacity` slots grows to.
pub open spec fn grown_capacity(capacity: nat) -> nat {
    2 * capacity
}

/// The capacity that it takes to push one more element onto `len` elements in
/// `capacity` slots: the same while a slot is free, grown once when none is.
pub open spec fn capacity_after_push(capacity: nat, len: nat) -> nat {
    if len < capacity {
        capacity
    } else {
        grown_capacity(capacity)
    }
}

/// What opening a file comes to: the size that the file is given before it is
/// mapped, and the capacity and length of the container over that mapping.
#[derive(Clone, Copy, Debug, PartialEq, Eq, Structural)]
pub struct OpenPlan {
    pub file_bytes: u64,
    pub capacity: usize,
    pub len: usize,
}

/// What growing comes to: the size that the file is extended to before it is
/// mapped anew, and the capacity of the container over that mapping.
#[derive(Clone, Copy, Debug, PartialEq, Eq, Structural)]
pub struct Growth {
    pub file_bytes: u64,
    pub capacity: usize,
}

/// Decides how a file of `file_len` bytes is opened.
///
/// A file without a whole slot is taken as new: it gets `START_CAPACITY` slots
/// and the container is empty. Any other file is taken as the elements of an
/// earlier container: every whole slot is an element, and bytes after the last
/// whole slot are cut off. The plan fails only if the slots cannot be addressed
/// on this machine.
pub fn plan_open<T: Element>(file_len: u64) -> (plan: Result<OpenPlan, FVecError>)
    ensures
        plan is Ok <==> opened_capacity(file_len as nat, T::width()) * T::width() <= usize::MAX,
        plan matches Ok(p) ==> {
            &&& p.capacity == opened_capacity(file_len as nat, T::width())
            &&& p.len == whole_slots(file_len as nat, T::width())
            &&& p.file_bytes == p.capacity * T::width()
        },
        plan matches Err(e) ==> e == FVecError::Mapping,
{
    let width = T::byte_width();
    proof {
        T::lemma_width();
    }
    let slots = file_len / (width as u64);
    if slots == 0 {
        match START_CAPACITY.checked_mul(width) {
            Some(bytes) => Ok(
                OpenPlan { file_bytes: bytes as u64, capacity: START_CAPACITY, len: 0 },
            ),
            None => Err(FVecError::Mapping),
        }
    } else {
        assert(slots * width <= file_len) by (nonlinear_arith)
            requires
                slots == file_len as int / width as int,
                width > 0,
        ;
        let bytes = slots * (width as u64);
        if bytes > usize::MAX as u64 {
            Err(FVecError::Mapping)
        } else {
            assert(slots <= slots * width) by (nonlinear_arith)
                requires
                    width > 0,
                    slots >= 0,
            ;
            Ok(OpenPlan { file_bytes: bytes, capacity: slots as usize, len: slots as usize })
        }
    }
}

/// Decides how a full container of `capacity` slots grows: to twice the slots,
/// unless those cannot be addressed on this machine.
pub fn plan_growth<T: Element>(capacity: usize) -> (plan: Result<Growth, FVecError>)
    ensures
        plan is Ok <==> grown_capacity(capacity as nat) * T::width() <= usize::MAX,
        plan matches Ok(g) ==> {
            &&& g.capacity == grown_capacity(capacity as nat)
            &&& g.file_bytes == g.capacity * T::width()
        },
        plan matches Err(e) ==> e == FVecError::Mapping,
{
    let width = T::byte_width();
    proof {
        T::lemma_width();
    }
    match capacity.checked_mul(2) {
        Some(doubled) => match doubled.checked_mul(width) {
            Some(bytes) => Ok(Growth { file_bytes: bytes as u64, capacity: doubled }),
            None => Err(FVecError::Mapping),
        },
        None => {
            assert(2 * capacity * width > usize::MAX) by (nonlinear_arith)
                requires
                    2 * capacity > usize::MAX,
                    width > 0,
            ;
            Err(FVecError::Mapping)
        },
    }
}

} // verus!
