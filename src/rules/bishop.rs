//! The bishop: slides along diagonals.
use vstd::prelude::*;

use super::{back_rank, start_square, UniquePiece};
use crate::square::{File, Square};

verus! {

#[derive(Clone, Copy, Debug, PartialEq, Eq, Structural)]
pub struct BishopRules;

impl BishopRules {
    pub fn new() -> (r: Self)
        ensures
            r == BishopRules,
    {
        BishopRules
    }

    pub fn get_initial_square(&self, piece: UniquePiece, white: bool) -> (r: Square)
        requires
            piece == UniquePiece::QBishop || piece == UniquePiece::KBishop,
        ensures
            r == start_square(piece, white),
    {
        let file = match piece {
            UniquePiece::QBishop => File::C,
            _ => File::F,
        };
        Square::new_known(file, back_rank(white))
    }
}

} // verus!
