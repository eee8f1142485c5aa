//! A growable array whose elements live in a memory-mapped file.
//!
//! The container keeps its elements as fixed-width byte slots in a mapping of
//! its backing file, so that they outlive the process and are read and written
//! as ordinary memory. This crate holds the container's rules: how the file is
//! laid out, how the container is recovered from a file, when and by how much it
//! grows, and how elements are reached. Opening, extending and mapping the
//! file is left to the owner of the file, who hands each new mapping over.

pub mod element;
pub mod error;
pub mod fvec;
pub mod laws;
pub mod layout;
pub mod mapping;
pub mod plan;
pub mod slice;

pub use crate::element::Element;
pub use crate::error::FVecError;
pub use crate::fvec::{FVec, Pushed};
pub use crate::plan::{plan_growth, plan_open, Growth, OpenPlan, DEFAULT_PATH, START_CAPACITY};
pub use crate::slice::{Slice, SliceMut};
