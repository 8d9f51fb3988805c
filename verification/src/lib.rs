//! A single-layer softmax classifier over fixed-length feature vectors.
//!
//! Numbers are IEEE 754 single-precision values held as their 32-bit
//! encodings. Everything that is decided by the encoding alone (ordering,
//! clamping, negation, the first maximum of a vector) is computed and proved
//! here on integers. Rounding arithmetic is not: it is reached through the
//! [`arithmetic::Arithmetic`] trait, and every contract says which operands
//! each operation was handed and where its result went.

pub mod arithmetic;
pub mod binary32;
pub mod constants;
pub mod dataset;
pub mod failure;
pub mod types;
pub mod utils;
