//! Evaluation of a Lagrange interpolant at a single query point, together
//! with a verified work-partitioning policy for splitting the outer
//! summation across a fixed number of workers.
//!
//! Sample coordinates and results are IEEE-754 binary64 values, carried
//! everywhere as their 64-bit representations, so that every contract can
//! pin the result down to the exact bit pattern the evaluation produces.
//! The four rounding arithmetic operations are performed by a software
//! implementation of IEEE-754 and enter the proofs only as uninterpreted
//! functions of the operand bit patterns.

pub mod arith;
pub mod interp;
pub mod partition;
