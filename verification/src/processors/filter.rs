//! The forms of biquad filter the filter processors can run.
use vstd::prelude::*;

verus! {

/// The biquad structure a filter runs: direct form 1, or transposed
/// direct form 2.
#[derive(Clone, Copy, Debug, PartialEq, Eq, Structural)]
pub enum FilterForm {
    Form1,
    Form2,
}

} // verus!
