//! Verified core of an FFLONK-based decider for Nova proofs on BN254.
//!
//! Field elements, polynomials and curve points are held as plain values;
//! the arithmetic itself is done by the arkworks and `w3f-pcs` crates behind
//! trusted wrappers whose contracts state what each call computes.
pub mod field;
pub mod poly;
pub mod curve;
pub mod kzg;
pub mod decider;
pub mod text;
pub mod circuit_size;
pub mod solidity;
pub mod memory;
pub mod bench_circuit;
