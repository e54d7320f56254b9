//! A piece record: identity, colour, movement rules and the history of its squares.
use vstd::prelude::*;

use crate::rules::{
    kind_of, start_square, BishopRules, KingRules, KnightRules, PawnRules, PieceRules, QueenRules,
    RookRules, UniquePiece,
};
use crate::square::{File, Square};

verus! {

/// One piece of the board. The last entry of `square_hist` is where the piece stands
/// now; `None` there means that it has been captured.
pub struct PieceData {
    pub piece: UniquePiece,
    pub white: bool,
    pub behavior: PieceRules,
    pub square_hist: Vec<Option<Square>>,
}

/// The mathematical value of a [`PieceData`].
pub ghost struct PieceModel {
    pub piece: UniquePiece,
    pub white: bool,
    pub behavior: PieceRules,
    pub hist: Seq<Option<Square>>,
}

impl PieceModel {
    /// Where the piece stands now: the last history entry (`None` when captured).
    pub open spec fn curr(self) -> Option<Square> {
        if self.hist.len() == 0 {
            None
        } else {
            self.hist.last()
        }
    }

    pub open spec fn has_moved(self) -> bool {
        self.hist.len() > 1
    }

    /// The piece after one more history entry.
    pub open spec fn with_entry(self, e: Option<Square>) -> PieceModel {
        PieceModel { hist: self.hist.push(e), ..self }
    }

    /// A piece as set up on a fresh board.
    pub open spec fn fresh(piece: UniquePiece, white: bool) -> PieceModel {
        PieceModel {
            piece,
            white,
            behavior: PieceRules::spec_for_piece(kind_of(piece)),
            hist: seq![Some(start_square(piece, white))],
        }
    }
}

impl View for PieceData {
    type V = PieceModel;

    open spec fn view(&self) -> PieceModel {
        PieceModel {
            piece: self.piece,
            white: self.white,
            behavior: self.behavior,
            hist: self.square_hist@,
        }
    }
}

/// The pawn identity that starts on a file.
pub open spec fn pawn_of_file(file: File) -> UniquePiece {
    match file {
        File::A => UniquePiece::APawn,
        File::B => UniquePiece::BPawn,
        File::C => UniquePiece::CPawn,
        File::D => UniquePiece::DPawn,
        File::E => UniquePiece::EPawn,
        File::F => UniquePiece::FPawn,
        File::G => UniquePiece::GPawn,
        File::H => UniquePiece::HPawn,
    }
}

impl PieceData {
    fn fresh(piece: UniquePiece, white: bool, behavior: PieceRules, start: Square) -> (r: Self)
        ensures
            r@ == (PieceModel { piece, white, behavior, hist: seq![Some(start)] }),
    {
        let mut square_hist: Vec<Option<Square>> = Vec::new();
        square_hist.push(Some(start));
        assert(square_hist@ =~= seq![Some(start)]);
        PieceData { piece, white, behavior, square_hist }
    }

    /// The pawn that starts on `file`.
    pub fn new_pawn(file: File, white: bool) -> (r: Self)
        ensures
            r@ == PieceModel::fresh(pawn_of_file(file), white),
    {
        let piece = match file {
            File::A => UniquePiece::APawn,
            File::B => UniquePiece::BPawn,
            File::C => UniquePiece::CPawn,
            File::D => UniquePiece::DPawn,
            File::E => UniquePiece::EPawn,
            File::F => UniquePiece::FPawn,
            File::G => UniquePiece::GPawn,
            File::H => UniquePiece::HPawn,
        };
        let rules = PawnRules::new();
        let start = rules.get_initial_square(piece, white);
        Self::fresh(piece, white, PieceRules::Pawn(rules), start)
    }

    /// The rook that starts on `file` (A or H).
    pub fn new_rook(file: File, white: bool) -> (r: Self)
        requires
            file == File::A || file == File::H,
        ensures
            r@ == PieceModel::fresh(
                if file == File::A {
                    UniquePiece::QRook
                } else {
                    UniquePiece::KRook
                },
                white,
            ),
    {
        let piece = match file {
            File::A => UniquePiece::QRook,
            _ => UniquePiece::KRook,
        };
        let rules = RookRules::new();
        let start = rules.get_initial_square(piece, white);
        Self::fresh(piece, white, PieceRules::Rook(rules), start)
    }

    /// The knight that starts on `file` (B or G).
    pub fn new_knight(file: File, white: bool) -> (r: Self)
        requires
            file == File::B || file == File::G,
        ensures
            r@ == PieceModel::fresh(
                if file == File::B {
                    UniquePiece::QKnight
                } else {
                    UniquePiece::KKnight
                },
                white,
            ),
    {
        let piece = match file {
            File::B => UniquePiece::QKnight,
            _ => UniquePiece::KKnight,
        };
        let rules = KnightRules::new();
        let start = rules.get_initial_square(piece, white);
        Self::fresh(piece, white, PieceRules::Knight(rules), start)
    }

    /// The bishop that starts on `file` (C or F).
    pub fn new_bishop(file: File, white: bool) -> (r: Self)
        requires
            file == File::C || file == File::F,
        ensures
            r@ == PieceModel::fresh(
                if file == File::C {
                    UniquePiece::QBishop
                } else {
                    UniquePiece::KBishop
                },
                white,
            ),
    {
        let piece = match file {
            File::C => UniquePiece::QBishop,
            _ => UniquePiece::KBishop,
        };
        let rules = BishopRules::new();
        let start = rules.get_initial_square(piece, white);
        Self::fresh(piece, white, PieceRules::Bishop(rules), start)
    }

    pub fn new_queen(white: bool) -> (r: Self)
        ensures
            r@ == PieceModel::fresh(UniquePiece::Queen, white),
    {
        let rules = QueenRules::new();
        let start = rules.get_initial_square(white);
        Self::fresh(UniquePiece::Queen, white, PieceRules::Queen(rules), start)
    }

    pub fn new_king(white: bool) -> (r: Self)
        ensures
            r@ == PieceModel::fresh(UniquePiece::King, white),
    {
        let rules = KingRules::new();
        let start = rules.get_initial_square(white);
        Self::fresh(UniquePiece::King, white, PieceRules::King(rules), start)
    }

    /// Where the piece stands now, or `None` once it has been captured.
    pub fn curr_square(&self) -> (r: Option<Square>)
        ensures
            r == self@.curr(),
    {
        let n = self.square_hist.len();
        if n == 0 {
            None
        } else {
            self.square_hist[n - 1]
        }
    }

    /// Records a move to `square`, without any check.
    pub fn move_unchecked(&mut self, square: Square)
        ensures
            final(self)@ == old(self)@.with_entry(Some(square)),
    {
        self.square_hist.push(Some(square));
    }

    /// Records the capture of the piece.
    pub fn capture(&mut self)
        ensures
            final(self)@ == old(self)@.with_entry(None),
    {
        self.square_hist.push(None);
    }

    pub fn has_moved(&self) -> (r: bool)
        ensures
            r == self@.has_moved(),
    {
        self.square_hist.len() > 1
    }
}

} // verus!
