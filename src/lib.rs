//! A two-dimensional charged-particle simulation in fixed-point arithmetic.
//!
//! Every quantity (position, velocity, mass, charge, force, coefficient) is an
//! integer holding the real value times [`fixed::SCALE`].
pub mod fixed;
pub mod particle;
pub mod system;
pub mod laws;
pub mod sampling;
