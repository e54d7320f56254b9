//! The pawn: forward moves onto empty squares, diagonal captures.
use vstd::prelude::*;

use super::{opt_seq, push_offset, start_square, UniquePiece};
use crate::square::{File, Rank, Square};

verus! {

#[derive(Clone, Copy, Debug, PartialEq, Eq, Structural)]
pub struct PawnRules;

/// The rank step of a pawn: up the board for white, down for black.
pub open spec fn pawn_direction(white: bool) -> int {
    if white {
        1
    } else {
        -1
    }
}

/// The squares ahead of a pawn on `s`: two ranks ahead while it has not moved, then one.
pub open spec fn pawn_advances(s: Square, white: bool, has_moved: bool) -> Seq<Square> {
    seq![] + (if has_moved {
        seq![]
    } else {
        opt_seq(s.spec_offset(0, 2 * pawn_direction(white)))
    }) + opt_seq(s.spec_offset(0, pawn_direction(white)))
}

/// The two squares diagonally ahead of a pawn on `s`, right then left, where on the board.
pub open spec fn pawn_captures(s: Square, white: bool) -> Seq<Square> {
    seq![] + opt_seq(s.spec_offset(1, pawn_direction(white))) + opt_seq(
        s.spec_offset(-1, pawn_direction(white)),
    )
}

impl PawnRules {
    pub fn new() -> (r: Self)
        ensures
            r == PawnRules,
    {
        PawnRules
    }

    pub fn get_initial_square(&self, piece: UniquePiece, white: bool) -> (r: Square)
        requires
            super::kind_of(piece) == crate::square::Piece::Pawn,
        ensures
            r == start_square(piece, white),
    {
        let rank = if white {
            Rank::R2
        } else {
            Rank::R7
        };
        let file = match piece {
            UniquePiece::APawn => File::A,
            UniquePiece::BPawn => File::B,
            UniquePiece::CPawn => File::C,
            UniquePiece::DPawn => File::D,
            UniquePiece::EPawn => File::E,
            UniquePiece::FPawn => File::F,
            UniquePiece::GPawn => File::G,
            _ => File::H,
        };
        Square::new_known(file, rank)
    }

    /// The squares a pawn on `from` may move to when they are empty.
    pub fn get_move_only_squares(&self, from: &Square, white: bool, has_moved: bool) -> (r: Vec<
        Square,
    >)
        ensures
            r@ == pawn_advances(*from, white, has_moved),
    {
        let direction: i32 = if white {
            1
        } else {
            -1
        };
        let mut squares: Vec<Square> = Vec::new();
        if !has_moved {
            push_offset(&mut squares, from, 0, 2 * direction);
        } else {
            assert(squares@ =~= seq![] + seq![]);
        }
        push_offset(&mut squares, from, 0, direction);
        squares
    }

    /// The squares a pawn on `from` may capture on.
    pub fn get_capture_only_squares(&self, from: &Square, white: bool) -> (r: Vec<Square>)
        ensures
            r@ == pawn_captures(*from, white),
    {
        let direction: i32 = if white {
            1
        } else {
            -1
        };
        let mut squares: Vec<Square> = Vec::new();
        push_offset(&mut squares, from, 1, direction);
        push_offset(&mut squares, from, -1, direction);
        squares
    }
}

} // verus!
