//! Movement rules: one variant per piece kind, sharing a sliding-move primitive.
use vstd::prelude::*;

use crate::board::{is_enemy, is_vacant, occupant, Board};
use crate::piece_data::{PieceData, PieceModel};
use crate::square::{File, Piece, Rank, Square};
use king::king_targets;
use knight::knight_targets;
use pawn::{pawn_advances, pawn_captures};

pub mod bishop;
pub mod king;
pub mod knight;
pub mod pawn;
pub mod queen;
pub mod rook;

pub use bishop::BishopRules;
pub use king::KingRules;
pub use knight::KnightRules;
pub use pawn::PawnRules;
pub use queen::QueenRules;
pub use rook::RookRules;

verus! {

/// The identity of a piece, fixed when the board is set up and kept for its whole
/// life, promotion included: the pawns by starting file, and the two rooks, knights
/// and bishops by the side (queen's or king's) on which they start.
#[derive(Clone, Copy, Debug, PartialEq, Eq, Structural, Hash)]
pub enum UniquePiece {
    APawn,
    BPawn,
    CPawn,
    DPawn,
    EPawn,
    FPawn,
    GPawn,
    HPawn,
    QRook,
    QKnight,
    QBishop,
    Queen,
    King,
    KBishop,
    KKnight,
    KRook,
}

/// The piece kind that an identity starts as.
pub open spec fn kind_of(u: UniquePiece) -> Piece {
    match u {
        UniquePiece::QRook | UniquePiece::KRook => Piece::Rook,
        UniquePiece::QKnight | UniquePiece::KKnight => Piece::Knight,
        UniquePiece::QBishop | UniquePiece::KBishop => Piece::Bishop,
        UniquePiece::Queen => Piece::Queen,
        UniquePiece::King => Piece::King,
        _ => Piece::Pawn,
    }
}

/// The file on which an identity starts.
pub open spec fn start_file(u: UniquePiece) -> File {
    match u {
        UniquePiece::APawn | UniquePiece::QRook => File::A,
        UniquePiece::BPawn | UniquePiece::QKnight => File::B,
        UniquePiece::CPawn | UniquePiece::QBishop => File::C,
        UniquePiece::DPawn | UniquePiece::Queen => File::D,
        UniquePiece::EPawn | UniquePiece::King => File::E,
        UniquePiece::FPawn | UniquePiece::KBishop => File::F,
        UniquePiece::GPawn | UniquePiece::KKnight => File::G,
        UniquePiece::HPawn | UniquePiece::KRook => File::H,
    }
}

/// The rank on which an identity of the given colour starts.
pub open spec fn start_rank(u: UniquePiece, white: bool) -> Rank {
    if kind_of(u) == Piece::Pawn {
        if white {
            Rank::R2
        } else {
            Rank::R7
        }
    } else {
        if white {
            Rank::R1
        } else {
            Rank::R8
        }
    }
}

/// The standard starting square of an identity of the given colour.
pub open spec fn start_square(u: UniquePiece, white: bool) -> Square {
    Square { file: start_file(u), rank: start_rank(u, white) }
}

/// The movement rules of a piece, one variant per kind.
#[derive(Clone, Copy, Debug, PartialEq, Eq, Structural)]
pub enum PieceRules {
    Pawn(PawnRules),
    Rook(RookRules),
    Knight(KnightRules),
    Bishop(BishopRules),
    Queen(QueenRules),
    King(KingRules),
}

impl PieceRules {
    /// The kind whose rules these are.
    pub open spec fn kind(self) -> Piece {
        match self {
            PieceRules::Pawn(_) => Piece::Pawn,
            PieceRules::Rook(_) => Piece::Rook,
            PieceRules::Knight(_) => Piece::Knight,
            PieceRules::Bishop(_) => Piece::Bishop,
            PieceRules::Queen(_) => Piece::Queen,
            PieceRules::King(_) => Piece::King,
        }
    }

    /// The rules of a kind.
    pub open spec fn spec_for_piece(p: Piece) -> PieceRules {
        match p {
            Piece::Pawn => PieceRules::Pawn(PawnRules),
            Piece::Rook => PieceRules::Rook(RookRules),
            Piece::Knight => PieceRules::Knight(KnightRules),
            Piece::Bishop => PieceRules::Bishop(BishopRules),
            Piece::Queen => PieceRules::Queen(QueenRules),
            Piece::King => PieceRules::King(KingRules),
        }
    }

    pub fn for_piece(p: Piece) -> (r: PieceRules)
        ensures
            r == PieceRules::spec_for_piece(p),
    {
        match p {
            Piece::Pawn => PieceRules::Pawn(PawnRules::new()),
            Piece::Rook => PieceRules::Rook(RookRules::new()),
            Piece::Knight => PieceRules::Knight(KnightRules::new()),
            Piece::Bishop => PieceRules::Bishop(BishopRules::new()),
            Piece::Queen => PieceRules::Queen(QueenRules::new()),
            Piece::King => PieceRules::King(KingRules::new()),
        }
    }
}

/// How many more steps in direction (`df`, `dr`) can stay on the board from `s`, at most.
pub open spec fn ray_measure(s: Square, df: int, dr: int) -> int {
    (if df > 0 {
        7 - s.col()
    } else if df < 0 {
        s.col()
    } else {
        0
    }) + (if dr > 0 {
        7 - s.row()
    } else if dr < 0 {
        s.row()
    } else {
        0
    })
}

/// A step that stays on the board brings a walk closer to the edge it heads for.
pub proof fn lemma_step_decreases(from: Square, df: int, dr: int)
    requires
        !(df == 0 && dr == 0),
        from.spec_offset(df, dr) is Some,
    ensures
        0 <= ray_measure(from.spec_offset(df, dr).unwrap(), df, dr) < ray_measure(from, df, dr),
{
    reveal(Square::spec_offset);
}

/// The squares that a piece of colour `white` on `from` slides to in direction
/// (`df`, `dr`): it walks one step at a time, stops before the edge, goes on over empty
/// squares, takes the first enemy it meets and stops before the first friend.
pub open spec fn ray(ps: Seq<PieceModel>, from: Square, white: bool, df: int, dr: int) -> Seq<
    Square,
>
    decreases ray_measure(from, df, dr),
{
    if df == 0 && dr == 0 {
        seq![]
    } else {
        match from.spec_offset(df, dr) {
            None => seq![],
            Some(next) => match occupant(ps, next) {
                None => {
                    proof {
                        lemma_step_decreases(from, df, dr);
                    }
                    seq![next] + ray(ps, next, white, df, dr)
                },
                Some(i) => if ps[i].white != white {
                    seq![next]
                } else {
                    seq![]
                },
            },
        }
    }
}

/// Sliding geometry: in any one direction, a ray walks from its start one step at a
/// time; every square on it but the last is empty; the last is empty or holds an enemy;
/// and where the last is empty (or the ray is empty) the next step leaves the board or
/// meets a piece of the slider's own colour. So a ray counts the empty squares up to the
/// first obstruction, plus that obstruction when it is an enemy, and nothing beyond.
pub proof fn lemma_ray_shape(ps: Seq<PieceModel>, from: Square, white: bool, df: int, dr: int)
    requires
        !(df == 0 && dr == 0),
    ensures
        ({
            let r = ray(ps, from, white, df, dr);
            &&& r.len() > 0 ==> from.spec_offset(df, dr) == Some(r[0])
            &&& forall|k: int|
                0 <= k < r.len() - 1 ==> #[trigger] r[k].spec_offset(df, dr) == Some(r[k + 1])
            &&& forall|k: int| 0 <= k < r.len() - 1 ==> is_vacant(ps, #[trigger] r[k])
            &&& r.len() > 0 ==> is_vacant(ps, r.last()) || is_enemy(ps, r.last(), white)
            &&& (r.len() == 0 || is_vacant(ps, r.last())) ==> {
                let end = if r.len() == 0 {
                    from
                } else {
                    r.last()
                };
                match end.spec_offset(df, dr) {
                    None => true,
                    Some(n) => match occupant(ps, n) {
                        Some(i) => ps[i].white == white,
                        None => false,
                    },
                }
            }
        }),
    decreases ray_measure(from, df, dr),
{
    match from.spec_offset(df, dr) {
        None => {},
        Some(next) => match occupant(ps, next) {
            None => {
                lemma_step_decreases(from, df, dr);
                lemma_ray_shape(ps, next, white, df, dr);
                let r = ray(ps, from, white, df, dr);
                let rest = ray(ps, next, white, df, dr);
                assert(r == seq![next] + rest);
                assert forall|k: int| 0 <= k < r.len() - 1 implies #[trigger] r[k].spec_offset(
                    df,
                    dr,
                ) == Some(r[k + 1]) by {
                    if k > 0 {
                        assert(r[k] == rest[k - 1]);
                        assert(r[k + 1] == rest[k]);
                    }
                }
                assert forall|k: int| 0 <= k < r.len() - 1 implies is_vacant(ps, #[trigger] r[k]) by {
                    if k > 0 {
                        assert(r[k] == rest[k - 1]);
                    }
                }
                if rest.len() > 0 {
                    assert(r.last() == rest.last());
                }
            },
            Some(i) => {},
        },
    }
}

/// The four diagonal rays from `from`.
pub open spec fn diagonal_rays(ps: Seq<PieceModel>, from: Square, white: bool) -> Seq<Square> {
    seq![] + ray(ps, from, white, 1, 1) + ray(ps, from, white, 1, -1) + ray(
        ps,
        from,
        white,
        -1,
        -1,
    ) + ray(ps, from, white, -1, 1)
}

/// The four straight rays from `from`.
pub open spec fn straight_rays(ps: Seq<PieceModel>, from: Square, white: bool) -> Seq<Square> {
    seq![] + ray(ps, from, white, 0, 1) + ray(ps, from, white, 0, -1) + ray(
        ps,
        from,
        white,
        1,
        0,
    ) + ray(ps, from, white, -1, 0)
}

/// Holds of the squares on which no piece stands.
pub open spec fn vacant_pred(ps: Seq<PieceModel>) -> spec_fn(Square) -> bool {
    |t: Square| is_vacant(ps, t)
}

/// Holds of the squares on which a piece of the other colour than `white` stands.
pub open spec fn enemy_pred(ps: Seq<PieceModel>, white: bool) -> spec_fn(Square) -> bool {
    |t: Square| is_enemy(ps, t, white)
}

impl PieceRules {
    pub open spec fn slides_diagonally(self) -> bool {
        self is Bishop || self is Queen
    }

    pub open spec fn slides_straight(self) -> bool {
        self is Rook || self is Queen
    }

    /// The diagonal sliding squares of piece `p` under these rules.
    pub open spec fn spec_diagonal_squares(self, p: PieceModel, ps: Seq<PieceModel>) -> Seq<Square> {
        match p.curr() {
            Some(s) => if self.slides_diagonally() {
                diagonal_rays(ps, s, p.white)
            } else {
                seq![]
            },
            None => seq![],
        }
    }

    /// The straight sliding squares of piece `p` under these rules.
    pub open spec fn spec_straight_squares(self, p: PieceModel, ps: Seq<PieceModel>) -> Seq<Square> {
        match p.curr() {
            Some(s) => if self.slides_straight() {
                straight_rays(ps, s, p.white)
            } else {
                seq![]
            },
            None => seq![],
        }
    }

    /// The squares that piece `p` may reach only when they are empty.
    pub open spec fn spec_move_only_squares(self, p: PieceModel) -> Seq<Square> {
        match p.curr() {
            Some(s) => match self {
                PieceRules::King(_) => king_targets(s),
                PieceRules::Knight(_) => knight_targets(s),
                PieceRules::Pawn(_) => pawn_advances(s, p.white, p.has_moved()),
                _ => seq![],
            },
            None => seq![],
        }
    }

    /// The squares that piece `p` may reach only by capturing.
    pub open spec fn spec_capture_only_squares(self, p: PieceModel) -> Seq<Square> {
        match p.curr() {
            Some(s) => match self {
                PieceRules::King(_) => king_targets(s),
                PieceRules::Knight(_) => knight_targets(s),
                PieceRules::Pawn(_) => pawn_captures(s, p.white),
                _ => seq![],
            },
            None => seq![],
        }
    }

    /// The legal destinations of piece `p` under these rules, among the pieces `ps`:
    /// its sliding squares, its move-only squares that are empty and its capture-only
    /// squares that hold an enemy. A captured piece has none.
    pub open spec fn spec_valid_squares(self, p: PieceModel, ps: Seq<PieceModel>) -> Seq<Square> {
        self.spec_diagonal_squares(p, ps) + self.spec_straight_squares(p, ps)
            + self.spec_move_only_squares(p).filter(vacant_pred(ps))
            + self.spec_capture_only_squares(p).filter(enemy_pred(ps, p.white))
    }

    /// The starting square of an identity whose kind these rules are for.
    pub fn get_initial_square(&self, piece: UniquePiece, white: bool) -> (r: Square)
        requires
            kind_of(piece) == self.kind(),
        ensures
            r == start_square(piece, white),
    {
        match self {
            PieceRules::Pawn(rules) => rules.get_initial_square(piece, white),
            PieceRules::Rook(rules) => rules.get_initial_square(piece, white),
            PieceRules::Knight(rules) => rules.get_initial_square(piece, white),
            PieceRules::Bishop(rules) => rules.get_initial_square(piece, white),
            PieceRules::Queen(rules) => rules.get_initial_square(white),
            PieceRules::King(rules) => rules.get_initial_square(white),
        }
    }

    /// The squares the piece slides to in direction (`file_offset`, `rank_offset`).
    pub fn get_linear_squares_with_offsets(
        &self,
        piece_data: &PieceData,
        board: &Board,
        file_offset: i32,
        rank_offset: i32,
    ) -> (r: Vec<Square>)
        ensures
            r@ == match piece_data@.curr() {
                Some(s) => ray(board@.pieces, s, piece_data.white, file_offset as int, rank_offset as int),
                None => seq![],
            },
    {
        let ghost ps = board@.pieces;
        let ghost (df, dr) = (file_offset as int, rank_offset as int);
        let white = piece_data.white;
        let mut squares: Vec<Square> = Vec::new();
        let start = match piece_data.curr_square() {
            Some(s) => s,
            None => return squares,
        };
        if file_offset == 0 && rank_offset == 0 {
            return squares;
        }
        let mut curr = start;
        loop
            invariant
                !(df == 0 && dr == 0),
                df == file_offset as int,
                dr == rank_offset as int,
                ps == board@.pieces,
                white == piece_data.white,
                piece_data@.curr() == Some(start),
                squares@ + ray(ps, curr, white, df, dr) == ray(ps, start, white, df, dr),
            decreases ray_measure(curr, df, dr),
        {
            match curr.new_with_offset(file_offset, rank_offset) {
                Some(next) => match board.occupant_index(&next) {
                    None => {
                        assert(squares@.push(next) + ray(ps, next, white, df, dr) =~= squares@ + (
                        seq![next] + ray(ps, next, white, df, dr)));
                        proof {
                            lemma_step_decreases(curr, df, dr);
                        }
                        squares.push(next);
                        curr = next;
                    },
                    Some(i) => {
                        if board.piece_white(i) != white {
                            assert(squares@.push(next) =~= squares@ + seq![next]);
                            squares.push(next);
                        } else {
                            assert(squares@ + seq![] =~= squares@);
                        }
                        return squares;
                    },
                },
                None => {
                    assert(squares@ + seq![] =~= squares@);
                    return squares;
                },
            }
        }
    }

    /// The squares the piece slides to along diagonals, if its rules let it.
    pub fn get_diagonal_squares(&self, piece_data: &PieceData, board: &Board) -> (r: Vec<Square>)
        ensures
            r@ == self.spec_diagonal_squares(piece_data@, board@.pieces),
    {
        let mut squares: Vec<Square> = Vec::new();
        match self {
            PieceRules::Bishop(_) | PieceRules::Queen(_) => {
                let mut a = self.get_linear_squares_with_offsets(piece_data, board, 1, 1);
                let mut b = self.get_linear_squares_with_offsets(piece_data, board, 1, -1);
                let mut c = self.get_linear_squares_with_offsets(piece_data, board, -1, -1);
                let mut d = self.get_linear_squares_with_offsets(piece_data, board, -1, 1);
                squares.append(&mut a);
                squares.append(&mut b);
                squares.append(&mut c);
                squares.append(&mut d);
                proof {
                    if piece_data@.curr() is None {
                        assert(squares@ =~= seq![]);
                    }
                }
            },
            _ => {},
        }
        squares
    }

    /// The squares the piece slides to along ranks and files, if its rules let it.
    pub fn get_straight_squares(&self, piece_data: &PieceData, board: &Board) -> (r: Vec<Square>)
        ensures
            r@ == self.spec_straight_squares(piece_data@, board@.pieces),
    {
        let mut squares: Vec<Square> = Vec::new();
        match self {
            PieceRules::Rook(_) | PieceRules::Queen(_) => {
                let mut a = self.get_linear_squares_with_offsets(piece_data, board, 0, 1);
                let mut b = self.get_linear_squares_with_offsets(piece_data, board, 0, -1);
                let mut c = self.get_linear_squares_with_offsets(piece_data, board, 1, 0);
                let mut d = self.get_linear_squares_with_offsets(piece_data, board, -1, 0);
                squares.append(&mut a);
                squares.append(&mut b);
                squares.append(&mut c);
                squares.append(&mut d);
                proof {
                    if piece_data@.curr() is None {
                        assert(squares@ =~= seq![]);
                    }
                }
            },
            _ => {},
        }
        squares
    }

    /// The squares the piece may reach only when they are empty, before that is checked.
    pub fn get_move_only_squares(&self, piece_data: &PieceData) -> (r: Vec<Square>)
        ensures
            r@ == self.spec_move_only_squares(piece_data@),
    {
        match piece_data.curr_square() {
            Some(s) => match self {
                PieceRules::King(rules) => rules.get_move_only_squares(&s),
                PieceRules::Knight(rules) => rules.get_move_only_squares(&s),
                PieceRules::Pawn(rules) => rules.get_move_only_squares(
                    &s,
                    piece_data.white,
                    piece_data.has_moved(),
                ),
                _ => Vec::new(),
            },
            None => Vec::new(),
        }
    }

    /// The squares the piece may reach only by capturing, before that is checked.
    pub fn get_capture_only_squares(&self, piece_data: &PieceData) -> (r: Vec<Square>)
        ensures
            r@ == self.spec_capture_only_squares(piece_data@),
    {
        match piece_data.curr_square() {
            Some(s) => match self {
                PieceRules::King(rules) => rules.get_capture_only_squares(&s),
                PieceRules::Knight(rules) => rules.get_capture_only_squares(&s),
                PieceRules::Pawn(rules) => rules.get_capture_only_squares(&s, piece_data.white),
                _ => Vec::new(),
            },
            None => Vec::new(),
        }
    }

    /// The legal destinations of the piece on `board` under these rules.
    pub fn get_valid_squares(&self, piece_data: &PieceData, board: &Board) -> (r: Vec<Square>)
        ensures
            r@ == self.spec_valid_squares(piece_data@, board@.pieces),
    {
        let mut squares = self.get_diagonal_squares(piece_data, board);
        let mut straight = self.get_straight_squares(piece_data, board);
        squares.append(&mut straight);
        let move_only = self.get_move_only_squares(piece_data);
        let mut kept = board.keep_vacant(&move_only);
        squares.append(&mut kept);
        let capture_only = self.get_capture_only_squares(piece_data);
        let mut taken = board.keep_enemies(&capture_only, piece_data.white);
        squares.append(&mut taken);
        squares
    }
}

/// The back rank (rank 1 for white, rank 8 for black).
pub fn back_rank(white: bool) -> (r: Rank)
    ensures
        r == (if white { Rank::R1 } else { Rank::R8 }),
{
    if white {
        Rank::R1
    } else {
        Rank::R8
    }
}

/// The sequence holding the square, if there is one.
pub open spec fn opt_seq(o: Option<Square>) -> Seq<Square> {
    match o {
        Some(s) => seq![s],
        None => seq![],
    }
}

/// Appends the square `file_offset` files and `rank_offset` ranks from `from`, if it is on the board.
pub fn push_offset(squares: &mut Vec<Square>, from: &Square, file_offset: i32, rank_offset: i32)
    ensures
        final(squares)@ == old(squares)@ + opt_seq(
            from.spec_offset(file_offset as int, rank_offset as int),
        ),
{
    if let Some(s) = from.new_with_offset(file_offset, rank_offset) {
        squares.push(s);
    } else {
        assert(old(squares)@ + seq![] =~= old(squares)@);
    }
}

} // verus!
