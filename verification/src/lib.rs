//! One-dimensional finite-difference time-domain (Yee / leapfrog) integration
//! of Maxwell's equations between two perfectly conducting walls.
//!
//! The library is generic over the sample type: the arithmetic on samples is
//! handed in by the caller, and everything the library promises is stated in
//! terms of what that arithmetic may return.

pub mod config;
pub mod driver;
pub mod error;
pub mod snapshot;
pub mod wave;
