//! The knight: the eight L-shaped jumps.
use vstd::prelude::*;

use super::{back_rank, opt_seq, push_offset, start_square, UniquePiece};
use crate::square::{File, Square};

verus! {

#[derive(Clone, Copy, Debug, PartialEq, Eq, Structural)]
pub struct KnightRules;

/// The on-board squares a knight's jump away from `s`, clockwise from the upper right.
pub open spec fn knight_targets(s: Square) -> Seq<Square> {
    seq![] + opt_seq(s.spec_offset(1, 2)) + opt_seq(s.spec_offset(2, 1)) + opt_seq(
        s.spec_offset(2, -1),
    ) + opt_seq(s.spec_offset(1, -2)) + opt_seq(s.spec_offset(-1, -2)) + opt_seq(
        s.spec_offset(-2, -1),
    ) + opt_seq(s.spec_offset(-2, 1)) + opt_seq(s.spec_offset(-1, 2))
}

impl KnightRules {
    pub fn new() -> (r: Self)
        ensures
            r == KnightRules,
    {
        KnightRules
    }

    pub fn get_initial_square(&self, piece: UniquePiece, white: bool) -> (r: Square)
        requires
            piece == UniquePiece::QKnight || piece == UniquePiece::KKnight,
        ensures
            r == start_square(piece, white),
    {
        let file = match piece {
            UniquePiece::QKnight => File::B,
            _ => File::G,
        };
        Square::new_known(file, back_rank(white))
    }

    /// The squares a knight on `from` may move to when they are empty.
    pub fn get_move_only_squares(&self, from: &Square) -> (r: Vec<Square>)
        ensures
            r@ == knight_targets(*from),
    {
        let mut squares: Vec<Square> = Vec::new();
        push_offset(&mut squares, from, 1, 2);
        push_offset(&mut squares, from, 2, 1);
        push_offset(&mut squares, from, 2, -1);
        push_offset(&mut squares, from, 1, -2);
        push_offset(&mut squares, from, -1, -2);
        push_offset(&mut squares, from, -2, -1);
        push_offset(&mut squares, from, -2, 1);
        push_offset(&mut squares, from, -1, 2);
        squares
    }

    /// The squares a knight on `from` may capture on: the same as those it may move to.
    pub fn get_capture_only_squares(&self, from: &Square) -> (r: Vec<Square>)
        ensures
            r@ == knight_targets(*from),
    {
        self.get_move_only_squares(from)
    }
}

} // verus!
