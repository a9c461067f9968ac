use vstd::prelude::*;

pub mod grid;
pub mod score;
pub mod session;

verus! {

/// Number of guess rows in a game.
pub const ROWS: usize = 6;

/// Number of letters in a word, and cells in a row.
pub const CELLS: usize = 5;

} // verus!
