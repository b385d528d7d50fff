//! Bulk operations on regions of register-sized elements: copy, fill,
//! compare for the first mismatch, and scan for the first occurrence.
//!
//! The crate has three layers.
//!
//! - [`types`] and [`ieee`] hold the closed set of element types, each with
//!   its byte width and its equality of bit patterns.
//! - [`primitive`] holds the four operations on a region, which is a slice
//!   and an element count. [`dispatch`] holds the rule by which a repeated
//!   string instruction is chosen for a region, and the rule by which an
//!   index is recovered from where such an instruction stopped.
//! - [`slice`] holds the same operations on whole slices, with the one check
//!   that two slices are equally long.
//!
//! [`laws`] states what holds between the operations.

pub mod dispatch;
pub mod ieee;
pub mod laws;
pub mod primitive;
mod private;
pub mod slice;
pub mod types;

pub use ieee::{Binary32, Binary64};
pub use primitive::{rep_cmps, rep_movs, rep_scas, rep_stos};
pub use slice::{LengthMismatch, SliceExt};
pub use types::RegisterType;
