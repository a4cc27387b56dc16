//! A verified driver for iterative quasi-Newton optimization.
//!
//! The library owns the fixed-budget control loop around an opaque
//! line-search stepper: it interprets each step outcome (progressed or
//! converged), accumulates function-evaluation counts, and reports the
//! final loss together with an explicit convergence flag. The numeric
//! work itself (loss evaluation, the quasi-Newton update, tensor
//! reductions) is supplied by the caller through the `SimpleModel`,
//! `Stepper` and `SumSquares` traits.

pub mod driver;
pub mod norm;
