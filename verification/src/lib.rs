//! Column layout and evaluation scaffolding for least-squares fits over a
//! fixed family of basis functions: exponential-root terms `exp(-sqrt(b x))`,
//! the monomials `x^0 ..= x^d`, and logarithmic terms `ln(1 + lambda x)`.
//!
//! The crate is generic over the scalar type `P` and never does arithmetic on
//! it. What it owns is the bookkeeping that a fit depends on: which basis
//! function sits in which column of the design matrix, and which fitted
//! coefficient therefore multiplies which basis function at evaluation time.

pub mod basis;
pub mod column_order;
pub mod evaluator;
pub mod fit;
pub mod permutation;
pub mod term;

pub use basis::Basis;
pub use evaluator::{Evaluator, FitError};
pub use fit::approx_exp_root_log;
pub use term::BasisTerm;
