//! Charged-particle trajectory tracing through the magnetic field of a set of
//! current-carrying coils: a Biot-Savart field evaluator and a fourth-order
//! Runge-Kutta field-line integrator with a toroidal containment policy.
//!
//! Every coordinate is an IEEE-754 double-precision number carried as its bit
//! pattern in a `u64`. The four elementary arithmetic operations and the
//! ordering test are done by `rustc_apfloat`, a software implementation of
//! IEEE-754 arithmetic, behind trusted wrappers in [`scalar`]; the square root
//! is computed and verified in this crate on top of the integer square root.

pub mod constants;
pub mod point;
pub mod scalar;
pub mod simulation;
