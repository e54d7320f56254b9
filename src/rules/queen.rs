//! The queen: slides along ranks, files and diagonals.
use vstd::prelude::*;

use super::{back_rank, start_square, UniquePiece};
use crate::square::{File, Square};

verus! {

#[derive(Clone, Copy, Debug, PartialEq, Eq, Structural)]
pub struct QueenRules;

impl QueenRules {
    pub fn new() -> (r: Self)
        ensures
            r == QueenRules,
    {
        QueenRules
    }

    pub fn get_initial_square(&self, white: bool) -> (r: Square)
        ensures
            r == start_square(UniquePiece::Queen, white),
    {
        Square::new_known(File::D, back_rank(white))
    }
}

} // verus!
