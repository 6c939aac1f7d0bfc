//! Helpers of the random processors that hold no audio arithmetic.
pub mod utils;
pub mod random_cross;
