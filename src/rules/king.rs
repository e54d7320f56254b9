//! The king: one square in any direction.
use vstd::prelude::*;

use super::{back_rank, opt_seq, push_offset, start_square, UniquePiece};
use crate::square::{File, Square};

verus! {

#[derive(Clone, Copy, Debug, PartialEq, Eq, Structural)]
pub struct KingRules;

/// The on-board squares adjacent to `s`, clockwise from the one above it.
pub open spec fn king_targets(s: Square) -> Seq<Square> {
    seq![] + opt_seq(s.spec_offset(0, 1)) + opt_seq(s.spec_offset(1, 1)) + opt_seq(
        s.spec_offset(1, 0),
    ) + opt_seq(s.spec_offset(1, -1)) + opt_seq(s.spec_offset(0, -1)) + opt_seq(
        s.spec_offset(-1, -1),
    ) + opt_seq(s.spec_offset(-1, 0)) + opt_seq(s.spec_offset(-1, 1))
}

impl KingRules {
    pub fn new() -> (r: Self)
        ensures
            r == KingRules,
    {
        KingRules
    }

    pub fn get_initial_square(&self, white: bool) -> (r: Square)
        ensures
            r == start_square(UniquePiece::King, white),
    {
        Square::new_known(File::E, back_rank(white))
    }

    /// The squares a king on `from` may move to when they are empty.
    pub fn get_move_only_squares(&self, from: &Square) -> (r: Vec<Square>)
        ensures
            r@ == king_targets(*from),
    {
        let mut squares: Vec<Square> = Vec::new();
        push_offset(&mut squares, from, 0, 1);
        push_offset(&mut squares, from, 1, 1);
        push_offset(&mut squares, from, 1, 0);
        push_offset(&mut squares, from, 1, -1);
        push_offset(&mut squares, from, 0, -1);
        push_offset(&mut squares, from, -1, -1);
        push_offset(&mut squares, from, -1, 0);
        push_offset(&mut squares, from, -1, 1);
        squares
    }

    /// The squares a king on `from` may capture on: the same as those it may move to.
    pub fn get_capture_only_squares(&self, from: &Square) -> (r: Vec<Square>)
        ensures
            r@ == king_targets(*from),
    {
        self.get_move_only_squares(from)
    }
}

} // verus!
