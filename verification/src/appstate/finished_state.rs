//! A finished round: its board and how long it took.
use vstd::prelude::*;

use crate::components::grid::Grid;

verus! {

/// A round that is over, with the time it took in seconds.
#[derive(Debug)]
pub struct FinishedState {
    pub grid: Grid,
    pub time_taken_s: u64,
}

} // verus!
