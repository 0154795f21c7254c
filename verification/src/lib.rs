//! Analytic cost model for choosing a hash function by expected cost over a
//! probability-weighted set of use cases, natively and inside a prover.
//!
//! The verified parts are the integer models: permutation call counts per
//! message, trace-height padding, and the expansion of a zkVM description
//! into use cases.

pub mod callcount;
pub mod workload;
pub mod costmodel;
pub mod backends;
pub mod zkvm;
pub mod calibration;
pub mod cli;
