//! Exhaustive search for tilings of a 6×6×6 cube by a four-cell T-shaped piece,
//! built layer by layer through four placement phases with a depth-first,
//! stack-based backtracking search.
use vstd::prelude::*;

pub mod board;
pub mod defs;
pub mod geometry;
pub mod partition;
pub mod phase;
pub mod search;
pub mod tiling;
pub mod validator;

verus! {

} // verus!
