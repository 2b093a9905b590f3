//! A dense state-vector quantum circuit simulator.
//!
//! Amplitudes are complex numbers whose real and imaginary parts are
//! fixed-point values: an `i64` holding the value scaled by 2^48.  All
//! arithmetic on amplitudes is specified exactly at that fixed-point level,
//! so every routine of the engine carries a contract that pins its result.
//!
//! The engine lowers a gate stream to kernels, optionally optimises the
//! kernel list (fusion, commutation reordering, layer partitioning) and
//! applies each kernel to the amplitude buffer with a sparse indexing
//! primitive.  A density-matrix engine for Kraus-channel noise shares the
//! same indexing algebra.

pub mod apply;
pub mod batch;
pub mod classical;
pub mod complex;
pub mod custom_gate;
pub mod fixed;
pub mod gates;
pub mod kernel;
pub mod matrix;
pub mod noise;
pub mod register;
pub mod runtime;
pub mod structure;
