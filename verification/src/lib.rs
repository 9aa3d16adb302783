//! Homomorphic vector commitments over the Bandersnatch curve.
//!
//! A vector of scalars in evaluation form is committed to as one curve point,
//! the sum of each scalar times a fixed generator. A commitment can be moved
//! from one vector to another that differs in a single coordinate without
//! touching the other terms.

pub mod encoding;
pub mod error;
pub mod field;
pub mod curve;
pub mod generators;
pub mod commitment;
