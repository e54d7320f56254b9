//! The board: the 32 piece records, lookup by square, and the move-application engine.
use vstd::prelude::*;

use crate::piece_data::{pawn_of_file, PieceData, PieceModel};
use crate::position_cursor::PositionCursor;
use crate::moves::{
    apply_basic, apply_castle, apply_move, candidates, candidates_upto, capture_on, disambiguated,
    first_where, hist_lengths, lemma_candidates, lemma_replay_stops, moved_piece, on_file_pred,
    on_rank_pred, reaches_pred, replay, ChessError, GameMove, Move, MoveError,
};
use crate::rules::{
    back_rank, enemy_pred, kind_of, start_square, vacant_pred, PieceRules, UniquePiece,
};
use crate::square::{File, PartialSquare, Piece, Rank, Square};

verus! {

/// All 32 pieces, in a fixed enumeration order, with the history lengths that mark
/// each earlier position (see [`BoardModel`]).
pub struct Board {
    pieces: Vec<PieceData>,
    marks: Vec<Vec<usize>>,
}

/// The mathematical value of a [`Board`].
///
/// `pieces` are the piece records in enumeration order. `marks` has one entry per
/// applied ply: `marks[k][p]` is the number of history entries that piece `p` had
/// when ply `k` began, so the position after `k` plies is read from those entries.
pub ghost struct BoardModel {
    pub pieces: Seq<PieceModel>,
    pub marks: Seq<Seq<int>>,
}

impl View for Board {
    type V = BoardModel;

    closed spec fn view(&self) -> BoardModel {
        BoardModel {
            pieces: self.pieces@.map_values(|p: PieceData| p@),
            marks: self.marks@.map_values(|m: Vec<usize>| m@.map_values(|n: usize| n as int)),
        }
    }
}

/// The first piece, from index `i` on, that stands on `sq`.
pub open spec fn first_at(ps: Seq<PieceModel>, sq: Square, i: int) -> Option<int>
    decreases ps.len() - i,
{
    if i < 0 || i >= ps.len() {
        None
    } else if ps[i].curr() == Some(sq) {
        Some(i)
    } else {
        first_at(ps, sq, i + 1)
    }
}

/// What `first_at` finds stands on the square, at or after `i`, and no piece between
/// `i` and it does; when it finds nothing, no piece from `i` on stands there.
pub proof fn lemma_first_at(ps: Seq<PieceModel>, sq: Square, i: int)
    requires
        0 <= i,
    ensures
        match first_at(ps, sq, i) {
            Some(j) => i <= j < ps.len() && ps[j].curr() == Some(sq) && forall|k: int|
                i <= k < j ==> ps[k].curr() != Some(sq),
            None => forall|k: int| i <= k < ps.len() ==> ps[k].curr() != Some(sq),
        },
    decreases ps.len() - i,
{
    if i < ps.len() && ps[i].curr() != Some(sq) {
        lemma_first_at(ps, sq, i + 1);
    }
}

/// The first piece, from index `i` on, with identity `piece` and colour `white`.
pub open spec fn first_with_identity(ps: Seq<PieceModel>, piece: UniquePiece, white: bool, i: int) -> Option<
    int,
>
    decreases ps.len() - i,
{
    if i < 0 || i >= ps.len() {
        None
    } else if ps[i].piece == piece && ps[i].white == white {
        Some(i)
    } else {
        first_with_identity(ps, piece, white, i + 1)
    }
}

/// How many history entries piece `p` had after `k` plies: its mark for that ply, or
/// its full history for the latest position.
pub open spec fn ply_entry_count(b: BoardModel, p: int, k: int) -> int {
    if 0 <= k < b.marks.len() {
        if 0 <= p < b.marks[k].len() {
            b.marks[k][p]
        } else {
            0
        }
    } else {
        b.pieces[p].hist.len() as int
    }
}

/// Where piece `p` stood after `k` plies (`None`: captured by then).
pub open spec fn square_at_ply(b: BoardModel, p: int, k: int) -> Option<Square> {
    let n = ply_entry_count(b, p, k);
    if 1 <= n <= b.pieces[p].hist.len() {
        b.pieces[p].hist[n - 1]
    } else {
        None
    }
}

/// The piece standing on `sq`: the first one in enumeration order.
pub open spec fn occupant(ps: Seq<PieceModel>, sq: Square) -> Option<int> {
    first_at(ps, sq, 0)
}

/// No piece stands on `sq`.
pub open spec fn is_vacant(ps: Seq<PieceModel>, sq: Square) -> bool {
    occupant(ps, sq) is None
}

/// The piece standing on `sq` is not of colour `white`.
pub open spec fn is_enemy(ps: Seq<PieceModel>, sq: Square, white: bool) -> bool {
    match occupant(ps, sq) {
        Some(i) => ps[i].white != white,
        None => false,
    }
}

/// The identity and colour of the piece at index `i` of a fresh board: the white
/// then the black pawns by file, then the rooks, knights, bishops, queens and kings,
/// each white before black and queen's side before king's side.
pub open spec fn initial_identity(i: int) -> (UniquePiece, bool) {
    if i < 8 {
        (pawn_of_file(File::spec_from_index(i)), true)
    } else if i < 16 {
        (pawn_of_file(File::spec_from_index(i - 8)), false)
    } else if i == 16 {
        (UniquePiece::QRook, true)
    } else if i == 17 {
        (UniquePiece::KRook, true)
    } else if i == 18 {
        (UniquePiece::QRook, false)
    } else if i == 19 {
        (UniquePiece::KRook, false)
    } else if i == 20 {
        (UniquePiece::QKnight, true)
    } else if i == 21 {
        (UniquePiece::KKnight, true)
    } else if i == 22 {
        (UniquePiece::QKnight, false)
    } else if i == 23 {
        (UniquePiece::KKnight, false)
    } else if i == 24 {
        (UniquePiece::QBishop, true)
    } else if i == 25 {
        (UniquePiece::KBishop, true)
    } else if i == 26 {
        (UniquePiece::QBishop, false)
    } else if i == 27 {
        (UniquePiece::KBishop, false)
    } else if i == 28 {
        (UniquePiece::Queen, true)
    } else if i == 29 {
        (UniquePiece::Queen, false)
    } else if i == 30 {
        (UniquePiece::King, true)
    } else {
        (UniquePiece::King, false)
    }
}

/// The pieces of a fresh board.
pub open spec fn initial_pieces() -> Seq<PieceModel> {
    Seq::new(32, |i: int| PieceModel::fresh(initial_identity(i).0, initial_identity(i).1))
}

/// A fresh board: the standard starting position, with no ply applied.
pub open spec fn initial_board() -> BoardModel {
    BoardModel { pieces: initial_pieces(), marks: seq![] }
}

/// The index, on a fresh board, of the piece with identity `u` and colour `w`.
pub open spec fn initial_index(u: UniquePiece, w: bool) -> int {
    let (white_index, black_index) = match u {
        UniquePiece::APawn => (0, 8),
        UniquePiece::BPawn => (1, 9),
        UniquePiece::CPawn => (2, 10),
        UniquePiece::DPawn => (3, 11),
        UniquePiece::EPawn => (4, 12),
        UniquePiece::FPawn => (5, 13),
        UniquePiece::GPawn => (6, 14),
        UniquePiece::HPawn => (7, 15),
        UniquePiece::QRook => (16, 18),
        UniquePiece::KRook => (17, 19),
        UniquePiece::QKnight => (20, 22),
        UniquePiece::KKnight => (21, 23),
        UniquePiece::QBishop => (24, 26),
        UniquePiece::KBishop => (25, 27),
        UniquePiece::Queen => (28, 29),
        UniquePiece::King => (30, 31),
    };
    if w {
        white_index
    } else {
        black_index
    }
}

/// Initial layout: a fresh board holds 32 pieces, exactly one for each identity and
/// colour (`initial_index` finds it, and finds each piece back at its own index), each
/// on the standard starting square of its identity and colour, with a history of that
/// square alone.
pub proof fn lemma_initial_layout()
    ensures
        initial_board().pieces.len() == 32,
        initial_board().marks.len() == 0,
        forall|i: int|
            0 <= i < 32 ==> {
                let p = #[trigger] initial_board().pieces[i];
                &&& p.curr() == Some(start_square(p.piece, p.white))
                &&& p.hist.len() == 1
                &&& initial_index(p.piece, p.white) == i
            },
        forall|u: UniquePiece, w: bool|
            {
                let i = #[trigger] initial_index(u, w);
                &&& 0 <= i < 32
                &&& initial_board().pieces[i].piece == u
                &&& initial_board().pieces[i].white == w
            },
{
    let ps = initial_board().pieces;
    assert forall|i: int| 0 <= i < 32 implies {
        let p = #[trigger] ps[i];
        &&& p.curr() == Some(start_square(p.piece, p.white))
        &&& p.hist.len() == 1
        &&& initial_index(p.piece, p.white) == i
    } by {
        assert(i == 0 || i == 1 || i == 2 || i == 3 || i == 4 || i == 5 || i == 6 || i == 7 || i
            == 8 || i == 9 || i == 10 || i == 11 || i == 12 || i == 13 || i == 14 || i == 15 || i
            == 16 || i == 17 || i == 18 || i == 19 || i == 20 || i == 21 || i == 22 || i == 23 || i
            == 24 || i == 25 || i == 26 || i == 27 || i == 28 || i == 29 || i == 30 || i == 31);
    }
}

/// The piece of index `i` of a fresh board.
fn initial_piece(i: usize) -> (r: PieceData)
    requires
        i < 32,
    ensures
        r@ == PieceModel::fresh(initial_identity(i as int).0, initial_identity(i as int).1),
{
    match i {
        0 => PieceData::new_pawn(File::A, true),
        1 => PieceData::new_pawn(File::B, true),
        2 => PieceData::new_pawn(File::C, true),
        3 => PieceData::new_pawn(File::D, true),
        4 => PieceData::new_pawn(File::E, true),
        5 => PieceData::new_pawn(File::F, true),
        6 => PieceData::new_pawn(File::G, true),
        7 => PieceData::new_pawn(File::H, true),
        8 => PieceData::new_pawn(File::A, false),
        9 => PieceData::new_pawn(File::B, false),
        10 => PieceData::new_pawn(File::C, false),
        11 => PieceData::new_pawn(File::D, false),
        12 => PieceData::new_pawn(File::E, false),
        13 => PieceData::new_pawn(File::F, false),
        14 => PieceData::new_pawn(File::G, false),
        15 => PieceData::new_pawn(File::H, false),
        16 => PieceData::new_rook(File::A, true),
        17 => PieceData::new_rook(File::H, true),
        18 => PieceData::new_rook(File::A, false),
        19 => PieceData::new_rook(File::H, false),
        20 => PieceData::new_knight(File::B, true),
        21 => PieceData::new_knight(File::G, true),
        22 => PieceData::new_knight(File::B, false),
        23 => PieceData::new_knight(File::G, false),
        24 => PieceData::new_bishop(File::C, true),
        25 => PieceData::new_bishop(File::F, true),
        26 => PieceData::new_bishop(File::C, false),
        27 => PieceData::new_bishop(File::F, false),
        28 => PieceData::new_queen(true),
        29 => PieceData::new_queen(false),
        30 => PieceData::new_king(true),
        _ => PieceData::new_king(false),
    }
}

impl Board {
    /// A board in the standard starting position.
    pub fn new() -> (r: Board)
        ensures
            r@ == initial_board(),
    {
        let pieces = Self::create_initial_pieces();
        let marks: Vec<Vec<usize>> = Vec::new();
        let r = Board { pieces, marks };
        assert(r@.pieces =~= initial_pieces());
        assert(r@.marks =~= seq![]);
        r
    }

    fn create_initial_pieces() -> (r: Vec<PieceData>)
        ensures
            r@.map_values(|p: PieceData| p@) == initial_pieces(),
    {
        let mut pieces: Vec<PieceData> = Vec::new();
        let mut i: usize = 0;
        while i < 32
            invariant
                i <= 32,
                pieces@.len() == i,
                forall|j: int|
                    0 <= j < i ==> (#[trigger] pieces@[j])@ == PieceModel::fresh(
                        initial_identity(j).0,
                        initial_identity(j).1,
                    ),
            decreases 32 - i,
        {
            pieces.push(initial_piece(i));
            i += 1;
        }
        assert(pieces@.map_values(|p: PieceData| p@) =~= initial_pieces());
        pieces
    }

    /// The index of the piece standing on `square`, the first in enumeration order.
    pub fn occupant_index(&self, square: &Square) -> (r: Option<usize>)
        ensures
            match r {
                Some(i) => occupant(self@.pieces, *square) == Some(i as int) && i
                    < self@.pieces.len(),
                None => occupant(self@.pieces, *square) is None,
            },
    {
        proof {
            lemma_first_at(self@.pieces, *square, 0);
        }
        let mut i: usize = 0;
        while i < self.pieces.len()
            invariant
                i <= self.pieces@.len(),
                occupant(self@.pieces, *square) == first_at(self@.pieces, *square, i as int),
            decreases self.pieces@.len() - i,
        {
            if self.pieces[i].curr_square() == Some(*square) {
                return Some(i);
            }
            i += 1;
        }
        None
    }

    /// The piece standing on `square`, the first in enumeration order.
    pub fn get_piece_data_at_square(&self, square: &Square) -> (r: Option<&PieceData>)
        ensures
            match occupant(self@.pieces, *square) {
                Some(i) => r is Some && r.unwrap()@ == self@.pieces[i],
                None => r is None,
            },
    {
        match self.occupant_index(square) {
            Some(i) => Some(&self.pieces[i]),
            None => None,
        }
    }

    /// The piece standing on `square`, the first in enumeration order, for change.
    pub fn get_mut_piece_data_at_square(&mut self, square: &Square) -> (r: Option<&mut PieceData>)
        ensures
            match occupant(old(self)@.pieces, *square) {
                Some(i) => {
                    &&& r is Some
                    &&& (*r.unwrap())@ == old(self)@.pieces[i]
                    &&& final(self)@.pieces =~= old(self)@.pieces.update(i, (*final(r.unwrap()))@)
                    &&& final(self)@.marks == old(self)@.marks
                },
                None => r is None && final(self)@ == old(self)@,
            },
    {
        match self.occupant_index(square) {
            Some(i) => Some(&mut self.pieces[i]),
            None => None,
        }
    }

    /// The colour of the piece of index `i`.
    pub fn piece_white(&self, i: usize) -> (r: bool)
        requires
            i < self@.pieces.len(),
        ensures
            r == self@.pieces[i as int].white,
    {
        self.pieces[i].white
    }

    /// The squares of `squares` on which no piece stands, in order.
    pub fn keep_vacant(&self, squares: &Vec<Square>) -> (r: Vec<Square>)
        ensures
            r@ == squares@.filter(vacant_pred(self@.pieces)),
    {
        let ghost pred = vacant_pred(self@.pieces);
        let mut kept: Vec<Square> = Vec::new();
        let mut j: usize = 0;
        while j < squares.len()
            invariant
                j <= squares@.len(),
                pred == vacant_pred(self@.pieces),
                kept@ == squares@.take(j as int).filter(pred),
            decreases squares@.len() - j,
        {
            proof {
                let next = squares@.take(j + 1);
                assert(next.drop_last() =~= squares@.take(j as int));
                assert(next.last() == squares@[j as int]);
                reveal(Seq::filter);
            }
            if self.occupant_index(&squares[j]).is_none() {
                kept.push(squares[j]);
            }
            j += 1;
        }
        assert(squares@.take(squares@.len() as int) =~= squares@);
        kept
    }

    /// The squares of `squares` on which a piece of the other colour than `white` stands, in order.
    pub fn keep_enemies(&self, squares: &Vec<Square>, white: bool) -> (r: Vec<Square>)
        ensures
            r@ == squares@.filter(enemy_pred(self@.pieces, white)),
    {
        let ghost pred = enemy_pred(self@.pieces, white);
        let mut kept: Vec<Square> = Vec::new();
        let mut j: usize = 0;
        while j < squares.len()
            invariant
                j <= squares@.len(),
                pred == enemy_pred(self@.pieces, white),
                kept@ == squares@.take(j as int).filter(pred),
            decreases squares@.len() - j,
        {
            proof {
                let next = squares@.take(j + 1);
                assert(next.drop_last() =~= squares@.take(j as int));
                assert(next.last() == squares@[j as int]);
                reveal(Seq::filter);
            }
            match self.occupant_index(&squares[j]) {
                Some(i) => {
                    if self.pieces[i].white != white {
                        kept.push(squares[j]);
                    }
                },
                None => {},
            }
            j += 1;
        }
        assert(squares@.take(squares@.len() as int) =~= squares@);
        kept
    }

    /// The kind that an identity starts as.
    fn unique_to_piece(unique_piece: UniquePiece) -> (r: Piece)
        ensures
            r == kind_of(unique_piece),
    {
        match unique_piece {
            UniquePiece::QRook | UniquePiece::KRook => Piece::Rook,
            UniquePiece::QKnight | UniquePiece::KKnight => Piece::Knight,
            UniquePiece::QBishop | UniquePiece::KBishop => Piece::Bishop,
            UniquePiece::Queen => Piece::Queen,
            UniquePiece::King => Piece::King,
            _ => Piece::Pawn,
        }
    }

    /// The indices of the live pieces of the given kind (by identity) and colour, in
    /// enumeration order.
    fn get_all_live_piece_data_with_type(&self, piece: Piece, white: bool) -> (r: Vec<usize>)
        ensures
            r@.len() == candidates(self@.pieces, piece, white).len(),
            forall|j: int|
                0 <= j < r@.len() ==> #[trigger] r@[j] as int == candidates(
                    self@.pieces,
                    piece,
                    white,
                )[j],
    {
        let ghost ps = self@.pieces;
        let mut found: Vec<usize> = Vec::new();
        let mut i: usize = 0;
        while i < self.pieces.len()
            invariant
                i <= self.pieces@.len(),
                ps == self@.pieces,
                found@.len() == candidates_upto(ps, piece, white, i as int).len(),
                forall|j: int|
                    0 <= j < found@.len() ==> #[trigger] found@[j] as int == candidates_upto(
                        ps,
                        piece,
                        white,
                        i as int,
                    )[j],
            decreases self.pieces@.len() - i,
        {
            let p = &self.pieces[i];
            if Self::unique_to_piece(p.piece) == piece && p.curr_square().is_some() && p.white
                == white {
                found.push(i);
            }
            i += 1;
        }
        found
    }

    /// Whether the piece of index `i` stands on `rank`.
    fn stands_on_rank(&self, i: usize, rank: Rank) -> (r: bool)
        requires
            i < self@.pieces.len(),
        ensures
            r == on_rank_pred(self@.pieces, rank)(i as int),
    {
        match self.pieces[i].curr_square() {
            Some(s) => s.rank == rank,
            None => false,
        }
    }

    /// Whether the piece of index `i` stands on `file`.
    fn stands_on_file(&self, i: usize, file: File) -> (r: bool)
        requires
            i < self@.pieces.len(),
        ensures
            r == on_file_pred(self@.pieces, file)(i as int),
    {
        match self.pieces[i].curr_square() {
            Some(s) => s.file == file,
            None => false,
        }
    }

    /// Whether `to` is among the legal destinations of the piece of index `i`.
    fn reaches(&self, i: usize, to: &Square) -> (r: bool)
        requires
            i < self@.pieces.len(),
        ensures
            r == reaches_pred(self@.pieces, *to)(i as int),
    {
        let p = &self.pieces[i];
        let valid = p.behavior.get_valid_squares(p, self);
        let ghost goal = reaches_pred(self@.pieces, *to)(i as int);
        assert(goal == valid@.contains(*to));
        let mut j: usize = 0;
        while j < valid.len()
            invariant
                j <= valid@.len(),
                goal == valid@.contains(*to),
                goal == reaches_pred(self@.pieces, *to)(i as int),
                forall|k: int| 0 <= k < j ==> valid@[k] != *to,
            decreases valid@.len() - j,
        {
            if valid[j] == *to {
                assert(valid@[j as int] == *to);
                assert(valid@.contains(*to));
                return true;
            }
            j += 1;
        }
        false
    }

    /// Which of the candidates `cs` satisfies the origin's known rank or file, or, when
    /// neither is known, reaches `to`: the first such one.
    fn first_matching(&self, cs: &Vec<usize>, from: &PartialSquare, to: &Square) -> (r: Option<
        usize,
    >)
        requires
            forall|j: int| 0 <= j < cs@.len() ==> #[trigger] cs@[j] < self@.pieces.len(),
        ensures
            ({
                let ci = cs@.map_values(|c: usize| c as int);
                let f = match from.rank {
                    Some(rk) => on_rank_pred(self@.pieces, rk),
                    None => match from.file {
                        Some(fl) => on_file_pred(self@.pieces, fl),
                        None => reaches_pred(self@.pieces, *to),
                    },
                };
                match r {
                    Some(i) => first_where(ci, f) == Some(i as int) && i < self@.pieces.len(),
                    None => first_where(ci, f) is None,
                }
            }),
    {
        let ghost ci = cs@.map_values(|c: usize| c as int);
        let ghost f = match from.rank {
            Some(rk) => on_rank_pred(self@.pieces, rk),
            None => match from.file {
                Some(fl) => on_file_pred(self@.pieces, fl),
                None => reaches_pred(self@.pieces, *to),
            },
        };
        assert(ci.subrange(0, ci.len() as int) =~= ci);
        let mut j: usize = 0;
        while j < cs.len()
            invariant
                j <= cs@.len(),
                forall|k: int| 0 <= k < cs@.len() ==> #[trigger] cs@[k] < self@.pieces.len(),
                ci == cs@.map_values(|c: usize| c as int),
                f == match from.rank {
                    Some(rk) => on_rank_pred(self@.pieces, rk),
                    None => match from.file {
                        Some(fl) => on_file_pred(self@.pieces, fl),
                        None => reaches_pred(self@.pieces, *to),
                    },
                },
                first_where(ci, f) == first_where(ci.subrange(j as int, ci.len() as int), f),
            decreases cs@.len() - j,
        {
            let c = cs[j];
            let hit = match from.rank {
                Some(rk) => self.stands_on_rank(c, rk),
                None => match from.file {
                    Some(fl) => self.stands_on_file(c, fl),
                    None => self.reaches(c, to),
                },
            };
            proof {
                let sub = ci.subrange(j as int, ci.len() as int);
                assert(sub[0] == c as int);
                assert(hit == f(sub[0]));
                assert(sub.subrange(1, sub.len() as int) =~= ci.subrange(j + 1, ci.len() as int));
            }
            if hit {
                return Some(c);
            }
            j += 1;
        }
        None
    }

    /// The square of the piece that a move of a `piece` of colour `white` to `to` comes
    /// from, when the origin is only partly known.
    fn disambiguate_from_square(
        &self,
        piece: Piece,
        white: bool,
        from: &PartialSquare,
        to: &Square,
    ) -> (r: Option<Square>)
        ensures
            r == disambiguated(self@.pieces, piece, white, *from, *to),
    {
        let ghost ps = self@.pieces;
        let cs = self.get_all_live_piece_data_with_type(piece, white);
        proof {
            lemma_candidates(ps, piece, white, ps.len() as int);
            assert(cs@.map_values(|c: usize| c as int) =~= candidates(ps, piece, white));
        }
        match self.first_matching(&cs, from, to) {
            Some(i) => self.pieces[i].curr_square(),
            None => None,
        }
    }

    /// The number of history entries of each piece.
    fn hist_lengths(&self) -> (r: Vec<usize>)
        ensures
            r@.map_values(|n: usize| n as int) == hist_lengths(self@.pieces),
    {
        let mut lengths: Vec<usize> = Vec::new();
        let mut i: usize = 0;
        while i < self.pieces.len()
            invariant
                i <= self.pieces@.len(),
                lengths@.len() == i,
                forall|j: int|
                    0 <= j < i ==> #[trigger] lengths@[j] as int == self@.pieces[j].hist.len(),
            decreases self.pieces@.len() - i,
        {
            lengths.push(self.pieces[i].square_hist.len());
            i += 1;
        }
        assert(lengths@.map_values(|n: usize| n as int) =~= hist_lengths(self@.pieces));
        lengths
    }

    /// Marks the position before the ply being applied.
    fn push_mark(&mut self, snapshot: Vec<usize>)
        ensures
            final(self)@ == (BoardModel {
                marks: old(self)@.marks.push(snapshot@.map_values(|n: usize| n as int)),
                ..old(self)@
            }),
    {
        self.marks.push(snapshot);
        assert(self@.marks =~= old(self)@.marks.push(snapshot@.map_values(|n: usize| n as int)));
    }

    /// Records the capture of the piece of index `c`.
    fn capture_piece(&mut self, c: usize)
        requires
            c < old(self)@.pieces.len(),
        ensures
            final(self)@ == (BoardModel {
                pieces: old(self)@.pieces.update(c as int, old(self)@.pieces[c as int].with_entry(None)),
                ..old(self)@
            }),
    {
        self.pieces[c].capture();
        assert(self@.pieces =~= old(self)@.pieces.update(
            c as int,
            old(self)@.pieces[c as int].with_entry(None),
        ));
    }

    /// Takes back the last history entry of the piece of index `c`.
    fn undo_capture(&mut self, c: usize)
        requires
            c < old(self)@.pieces.len(),
            old(self)@.pieces[c as int].hist.len() > 0,
        ensures
            final(self)@ == (BoardModel {
                pieces: old(self)@.pieces.update(
                    c as int,
                    PieceModel { hist: old(self)@.pieces[c as int].hist.drop_last(), ..old(self)@.pieces[c as int] },
                ),
                ..old(self)@
            }),
    {
        self.pieces[c].square_hist.pop();
        assert(self@.pieces =~= old(self)@.pieces.update(
            c as int,
            PieceModel {
                hist: old(self)@.pieces[c as int].hist.drop_last(),
                ..old(self)@.pieces[c as int]
            },
        ));
    }

    /// Records the move of the piece of index `m` to `to`, promoting it if asked.
    fn move_piece(&mut self, m: usize, to: Square, promoted_to: Option<Piece>)
        requires
            m < old(self)@.pieces.len(),
        ensures
            final(self)@ == (BoardModel {
                pieces: old(self)@.pieces.update(
                    m as int,
                    moved_piece(old(self)@.pieces[m as int], to, promoted_to),
                ),
                ..old(self)@
            }),
    {
        self.pieces[m].move_unchecked(to);
        if let Some(k) = promoted_to {
            self.pieces[m].behavior = PieceRules::for_piece(k);
        }
        assert(self@.pieces =~= old(self)@.pieces.update(
            m as int,
            moved_piece(old(self)@.pieces[m as int], to, promoted_to),
        ));
    }

    /// Applies a basic move of a `piece` of colour `white` to `to`, from an origin that
    /// may be partly known. On failure the board is left as it was.
    fn add_basic_move(
        &mut self,
        piece: Piece,
        white: bool,
        to: &Square,
        from: &PartialSquare,
        promoted_to: Option<Piece>,
    ) -> (r: Result<(), MoveError>)
        ensures
            match apply_basic(old(self)@, piece, white, *to, *from, promoted_to) {
                Ok(b) => r is Ok && final(self)@ == b,
                Err(e) => r == Err::<(), MoveError>(e) && final(self)@ == old(self)@,
            },
    {
        if let Some(k) = promoted_to {
            match k {
                Piece::Rook | Piece::Knight | Piece::Bishop | Piece::Queen => {},
                _ => {
                    return Err(MoveError::InvalidPromotion(k));
                },
            }
        }
        let ghost before = self@;
        let snapshot = self.hist_lengths();
        let captured = self.occupant_index(to);
        if let Some(c) = captured {
            self.capture_piece(c);
        }
        assert(self@.pieces == capture_on(before.pieces, *to));
        assert(self@.marks == before.marks);
        let origin = match from.get_known() {
            Some(s) => Some(s),
            None => self.disambiguate_from_square(piece, white, from, to),
        };
        let found = match origin {
            Some(o) => match self.occupant_index(&o) {
                Some(m) => Ok(m),
                None => Err(MoveError::MissingPiece(o)),
            },
            None => Err(MoveError::UnresolvedOrigin),
        };
        match found {
            Ok(m) => {
                self.move_piece(m, *to, promoted_to);
                self.push_mark(snapshot);
                assert(self@.pieces =~= capture_on(before.pieces, *to).update(
                    m as int,
                    moved_piece(capture_on(before.pieces, *to)[m as int], *to, promoted_to),
                ));
                Ok(())
            },
            Err(e) => {
                if let Some(c) = captured {
                    self.undo_capture(c);
                    assert(before.pieces[c as int].hist.push(None).drop_last()
                        =~= before.pieces[c as int].hist);
                    assert(self@.pieces =~= before.pieces);
                }
                Err(e)
            },
        }
    }

    /// Applies a castling on `rank`: the piece on file E goes to `new_king_file`, the
    /// piece on `old_rook_file` goes to `new_rook_file`. On failure the board is left as
    /// it was.
    fn add_castle_move(
        &mut self,
        rank: Rank,
        old_rook_file: File,
        new_king_file: File,
        new_rook_file: File,
    ) -> (r: Result<(), MoveError>)
        requires
            old_rook_file != File::E,
        ensures
            match apply_castle(old(self)@, rank, old_rook_file, new_king_file, new_rook_file) {
                Ok(b) => r is Ok && final(self)@ == b,
                Err(e) => r == Err::<(), MoveError>(e) && final(self)@ == old(self)@,
            },
    {
        let ghost before = self@;
        let old_king_square = Square::new_known(File::E, rank);
        let new_king_square = Square::new_known(new_king_file, rank);
        let old_rook_square = Square::new_known(old_rook_file, rank);
        let new_rook_square = Square::new_known(new_rook_file, rank);
        let k = match self.occupant_index(&old_king_square) {
            Some(k) => k,
            None => {
                return Err(MoveError::MissingPiece(old_king_square));
            },
        };
        let r = match self.occupant_index(&old_rook_square) {
            Some(r) => r,
            None => {
                return Err(MoveError::MissingPiece(old_rook_square));
            },
        };
        proof {
            lemma_first_at(before.pieces, old_king_square, 0);
            lemma_first_at(before.pieces, old_rook_square, 0);
        }
        let snapshot = self.hist_lengths();
        self.move_piece(k, new_king_square, None);
        self.move_piece(r, new_rook_square, None);
        self.push_mark(snapshot);
        Ok(())
    }

    /// Applies one move. On failure the board is left as it was.
    pub fn add_move(&mut self, game_move: &GameMove) -> (r: Result<(), MoveError>)
        ensures
            match apply_move(old(self)@, *game_move) {
                Ok(b) => r is Ok && final(self)@ == b,
                Err(e) => r == Err::<(), MoveError>(e) && final(self)@ == old(self)@,
            },
    {
        let white = game_move.is_white();
        match game_move.move_ {
            Move::BasicMove { piece, to, from, is_capture, promoted_to } => {
                self.add_basic_move(piece, white, &to, &from, promoted_to)
            },
            Move::CastleKingside => self.add_castle_move(
                back_rank(white),
                File::H,
                File::G,
                File::F,
            ),
            Move::CastleQueenside => self.add_castle_move(
                back_rank(white),
                File::A,
                File::C,
                File::D,
            ),
        }
    }

    /// Applies the moves in order. The first move that cannot be applied stops the
    /// sequence: the board keeps every move before it, and the error gives its index
    /// and the reason.
    pub fn add_pgn_moves(&mut self, moves: &Vec<GameMove>) -> (r: Result<(), ChessError>)
        ensures
            final(self)@ == replay(old(self)@, moves@).0,
            match r {
                Ok(()) => replay(old(self)@, moves@).1 is None,
                Err(ChessError::IlegalMove { index, game_move, reason }) => {
                    &&& replay(old(self)@, moves@).1 == Some((index as int, reason))
                    &&& index < moves@.len()
                    &&& game_move == moves@[index as int]
                },
                Err(ChessError::PgnParseError) => false,
            },
    {
        let ghost start = self@;
        let mut i: usize = 0;
        assert(moves@.take(0) =~= seq![]);
        while i < moves.len()
            invariant
                i <= moves@.len(),
                start == old(self)@,
                replay(start, moves@.take(i as int)) == (self@, None::<(int, MoveError)>),
            decreases moves@.len() - i,
        {
            assert(moves@.take(i + 1).drop_last() =~= moves@.take(i as int));
            assert(moves@.take(i + 1).last() == moves@[i as int]);
            match self.add_move(&moves[i]) {
                Ok(()) => {},
                Err(e) => {
                    proof {
                        lemma_replay_stops(start, moves@, i + 1, moves@.len() as int);
                        assert(moves@.take(moves@.len() as int) =~= moves@);
                    }
                    return Err(ChessError::IlegalMove { index: i, game_move: moves[i], reason: e });
                },
            }
            i += 1;
        }
        assert(moves@.take(moves@.len() as int) =~= moves@);
        Ok(())
    }

    /// The legal destinations of the piece standing on `square`; none when it is empty.
    pub fn legal_moves_from_square(&self, square: &Square) -> (r: Vec<Square>)
        ensures
            r@ == match occupant(self@.pieces, *square) {
                Some(i) => self@.pieces[i].behavior.spec_valid_squares(self@.pieces[i], self@.pieces),
                None => seq![],
            },
    {
        match self.get_piece_data_at_square(square) {
            Some(piece_data) => piece_data.behavior.get_valid_squares(piece_data, self),
            None => Vec::new(),
        }
    }

    /// The legal destinations of the piece with identity `piece` and colour `white`;
    /// none once it has been captured.
    pub fn get_valid_squares_for_piece(&self, piece: UniquePiece, white: bool) -> (r: Vec<Square>)
        ensures
            r@ == match first_with_identity(self@.pieces, piece, white, 0) {
                Some(i) => self@.pieces[i].behavior.spec_valid_squares(self@.pieces[i], self@.pieces),
                None => seq![],
            },
    {
        let mut i: usize = 0;
        while i < self.pieces.len()
            invariant
                i <= self.pieces@.len(),
                first_with_identity(self@.pieces, piece, white, 0) == first_with_identity(
                    self@.pieces,
                    piece,
                    white,
                    i as int,
                ),
            decreases self.pieces@.len() - i,
        {
            let p = &self.pieces[i];
            if p.piece == piece && p.white == white {
                return p.behavior.get_valid_squares(p, self);
            }
            i += 1;
        }
        Vec::new()
    }

    /// The number of plies applied: the positions are numbered 0 to it.
    pub fn position_count(&self) -> (r: usize)
        ensures
            r == self@.marks.len(),
    {
        self.marks.len()
    }

    /// The number of piece records.
    pub fn piece_count(&self) -> (r: usize)
        ensures
            r == self@.pieces.len(),
    {
        self.pieces.len()
    }

    /// The identity and colour of the piece of index `p`.
    pub fn identity_of(&self, p: usize) -> (r: (UniquePiece, bool))
        requires
            p < self@.pieces.len(),
        ensures
            r == (self@.pieces[p as int].piece, self@.pieces[p as int].white),
    {
        (self.pieces[p].piece, self.pieces[p].white)
    }

    /// Where the piece of index `p` stood after `k` plies.
    pub fn square_at_ply(&self, p: usize, k: usize) -> (r: Option<Square>)
        requires
            p < self@.pieces.len(),
        ensures
            r == square_at_ply(self@, p as int, k as int),
    {
        let hist = &self.pieces[p].square_hist;
        let n: usize = if k < self.marks.len() {
            if p < self.marks[k].len() {
                self.marks[k][p]
            } else {
                0
            }
        } else {
            hist.len()
        };
        if 1 <= n && n <= hist.len() {
            hist[n - 1]
        } else {
            None
        }
    }

    /// A cursor over the positions of this board, at the latest one.
    pub fn position_cursor(&self) -> (r: PositionCursor)
        ensures
            r.spec_board() == self@,
            r.spec_index() == self@.marks.len(),
    {
        PositionCursor::new(self)
    }
}

} // verus!
