//! A small arithmetization engine.
//!
//! A circuit declares columns, selectors and polynomial gates in a
//! [`system::ConstraintSystem`], lays out its witness region by region in a
//! [`layouter::Layouter`], and the finalized [`trace::Trace`] is checked by
//! [`checker::check`], which reports every gate and every equality constraint
//! that does not hold. [`circuit::run`] takes a [`circuit::Circuit`] through
//! these steps; [`addition`] holds the circuit that adds two private inputs
//! and compares the sum with a public input.
//!
//! The engine computes in any [`field::Field`]. [`pasta`] is the base field of
//! the Pallas curve, whose arithmetic is that of `halo2_proofs`; [`small`] is
//! the field of integers modulo 101.

pub mod addition;
pub mod checker;
pub mod circuit;
pub mod error;
pub mod expression;
pub mod field;
pub mod grid;
pub mod layouter;
pub mod pasta;
pub mod region;
pub mod small;
pub mod system;
pub mod trace;
pub mod value;
