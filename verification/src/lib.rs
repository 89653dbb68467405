//! A Gaussian blur over RGBA rasters, built to run the same convolution on
//! two execution paths — a sequential host reference and a data-parallel
//! accelerator dispatch — and to keep the two comparable.
//!
//! All filter arithmetic is carried out in Q16 fixed point (the integer
//! `WEIGHT_ONE` stands for the real value 1.0), so every weight, every
//! accumulation and every narrowing step is exact integer arithmetic with
//! proved bounds. The accelerator itself, and image decoding and encoding,
//! are external collaborators driven from outside the library.

use vstd::prelude::*;

pub mod errors;
pub mod sums;
pub mod image_buffer;
pub mod kernel;
pub mod convolve;
pub mod dispatch;
pub mod pipeline;

verus! {

/// Fixed-point scale: the integer that stands for the real value 1.0.
pub const WEIGHT_ONE: u32 = 65536;

} // verus!
