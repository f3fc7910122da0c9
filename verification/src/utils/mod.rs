//! Small value types shared by the other modules.

pub mod non_max;

pub use non_max::{NonMax, NumberLimits};
