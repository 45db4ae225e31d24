//! Nilpotent numbers: truncated power series with a fixed number of
//! components, usable as numbers for numerical analysis around a local
//! coordinate.
//!
//! `series` multiplies and inverts coefficient slices; `Nilpot` wraps `N`
//! coefficients as a number; `Nilpot2` to `Nilpot5` are its fixed sizes;
//! `laws` proves the ring laws that hold when the coefficients form a field.
pub mod scalar;
pub mod series;
pub mod nilpot;
pub mod fixed;
pub mod laws;

pub use scalar::Scalar;
pub use series::{inv, mul};
pub use nilpot::Nilpot;
pub use fixed::{Nilpot2, Nilpot3, Nilpot4, Nilpot5};
