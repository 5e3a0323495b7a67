//! Numeric and geometric helpers.

pub mod fixed;
pub mod math;
pub mod random;
pub mod color;
