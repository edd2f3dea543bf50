//! Exhaustive solver for a layered ring puzzle.

pub mod printer;
pub mod puzzle;
pub mod search;
pub mod solver;
