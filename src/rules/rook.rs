//! The rook: slides along ranks and files.
use vstd::prelude::*;

use super::{back_rank, start_square, UniquePiece};
use crate::square::{File, Square};

verus! {

#[derive(Clone, Copy, Debug, PartialEq, Eq, Structural)]
pub struct RookRules;

impl RookRules {
    pub fn new() -> (r: Self)
        ensures
            r == RookRules,
    {
        RookRules
    }

    pub fn get_initial_square(&self, piece: UniquePiece, white: bool) -> (r: Square)
        requires
            piece == UniquePiece::QRook || piece == UniquePiece::KRook,
        ensures
            r == start_square(piece, white),
    {
        let file = match piece {
            UniquePiece::QRook => File::A,
            _ => File::H,
        };
        Square::new_known(file, back_rank(white))
    }
}

} // verus!
