//! Linearisation stage of a PLONK prover over the scalar field of BLS12-381.
//!
//! The crate evaluates the witness, selector and permutation polynomials at
//! the evaluation challenge, folds the contributions of its gates and the
//! permutation argument into one linearisation polynomial, and packages the
//! scalar evaluations that go into a proof. Field and polynomial arithmetic is
//! performed by `ark-ff` and `ark-poly`; every formula built on top of it is
//! stated over the integers modulo the field order and proved, and so is the
//! fact that the quotient identity of the permutation argument holds on every
//! row of a circuit whose copy constraints are satisfied.

pub mod copy_constraints;
pub mod domain;
pub mod field;
pub mod linearisation_poly;
pub mod permutation;
pub mod polynomial;
