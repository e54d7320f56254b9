//! Move descriptors, errors, and what applying a move does to a board.
use vstd::prelude::*;

use crate::board::{occupant, BoardModel};
use crate::piece_data::PieceModel;
use crate::rules::{kind_of, PieceRules};
use crate::square::{File, PartialSquare, Piece, Rank, Square};

verus! {

/// One move, as algebraic notation describes it.
#[derive(Clone, Copy, Debug, PartialEq, Eq, Structural)]
pub enum Move {
    /// A piece of kind `piece` goes to `to`, from an origin that may be partly known.
    /// `is_capture` is the notation's `x`; the engine captures whatever stands on `to`.
    BasicMove {
        piece: Piece,
        to: Square,
        from: PartialSquare,
        is_capture: bool,
        promoted_to: Option<Piece>,
    },
    CastleKingside,
    CastleQueenside,
}

/// A move with its move number. White's moves carry the number, black's do not.
#[derive(Clone, Copy, Debug, PartialEq, Eq, Structural)]
pub struct GameMove {
    pub number: Option<u32>,
    pub move_: Move,
}

/// Why a move could not be applied.
#[derive(Clone, Copy, Debug, PartialEq, Eq, Structural)]
pub enum MoveError {
    /// No live piece of the stated kind and colour matches the origin.
    UnresolvedOrigin,
    /// No piece stands on a square where the move needs one.
    MissingPiece(Square),
    /// A pawn cannot become a piece of this kind.
    InvalidPromotion(Piece),
}

/// Why a move sequence was not applied in full.
#[derive(Clone, Copy, Debug, PartialEq, Eq, Structural)]
pub enum ChessError {
    /// The move `game_move`, of index `index` (from 0) in the sequence, could not be
    /// applied; the moves before it were.
    IlegalMove { index: usize, game_move: GameMove, reason: MoveError },
    /// The move text could not be read.
    PgnParseError,
}

impl GameMove {
    /// The side to move: white when the move number is given.
    pub open spec fn spec_white(self) -> bool {
        self.number is Some
    }

    pub fn is_white(&self) -> (r: bool)
        ensures
            r == self.spec_white(),
    {
        self.number.is_some()
    }
}

/// A pawn may become a rook, a knight, a bishop or a queen.
pub open spec fn is_promotion_kind(p: Piece) -> bool {
    p == Piece::Rook || p == Piece::Knight || p == Piece::Bishop || p == Piece::Queen
}

/// The history length of each piece.
pub open spec fn hist_lengths(ps: Seq<PieceModel>) -> Seq<int> {
    Seq::new(ps.len(), |p: int| ps[p].hist.len() as int)
}

/// The board after one more ply that left the pieces as `ps`: the position before the
/// ply is marked by the history lengths it had.
pub open spec fn after_ply(b: BoardModel, ps: Seq<PieceModel>) -> BoardModel {
    BoardModel { pieces: ps, marks: b.marks.push(hist_lengths(b.pieces)) }
}

/// A live piece of the given kind (by identity) and colour.
pub open spec fn is_candidate(p: PieceModel, piece: Piece, white: bool) -> bool {
    kind_of(p.piece) == piece && p.curr() is Some && p.white == white
}

/// The indices below `n` of the candidates, in enumeration order.
pub open spec fn candidates_upto(ps: Seq<PieceModel>, piece: Piece, white: bool, n: int) -> Seq<
    int,
>
    decreases n,
{
    if n <= 0 {
        seq![]
    } else {
        let prev = candidates_upto(ps, piece, white, n - 1);
        if is_candidate(ps[n - 1], piece, white) {
            prev.push(n - 1)
        } else {
            prev
        }
    }
}

/// The indices of the live pieces of the given kind and colour, in enumeration order.
pub open spec fn candidates(ps: Seq<PieceModel>, piece: Piece, white: bool) -> Seq<int> {
    candidates_upto(ps, piece, white, ps.len() as int)
}

/// The first element of `cs` that satisfies `f`.
pub open spec fn first_where(cs: Seq<int>, f: spec_fn(int) -> bool) -> Option<int>
    decreases cs.len(),
{
    if cs.len() == 0 {
        None
    } else if f(cs[0]) {
        Some(cs[0])
    } else {
        first_where(cs.subrange(1, cs.len() as int), f)
    }
}

/// Holds of the pieces that stand on rank `r`.
pub open spec fn on_rank_pred(ps: Seq<PieceModel>, r: Rank) -> spec_fn(int) -> bool {
    |i: int|
        match ps[i].curr() {
            Some(s) => s.rank == r,
            None => false,
        }
}

/// Holds of the pieces that stand on file `f`.
pub open spec fn on_file_pred(ps: Seq<PieceModel>, f: File) -> spec_fn(int) -> bool {
    |i: int|
        match ps[i].curr() {
            Some(s) => s.file == f,
            None => false,
        }
}

/// Holds of the pieces that have `to` among their legal destinations.
pub open spec fn reaches_pred(ps: Seq<PieceModel>, to: Square) -> spec_fn(int) -> bool {
    |i: int| ps[i].behavior.spec_valid_squares(ps[i], ps).contains(to)
}

/// The candidate chosen for a partly known origin: by rank when the rank is known, else
/// by file when the file is known, else the first that can reach `to`. The first match
/// in enumeration order wins.
pub open spec fn pick_candidate(
    ps: Seq<PieceModel>,
    piece: Piece,
    white: bool,
    from: PartialSquare,
    to: Square,
) -> Option<int> {
    let cs = candidates(ps, piece, white);
    match from.rank {
        Some(r) => first_where(cs, on_rank_pred(ps, r)),
        None => match from.file {
            Some(f) => first_where(cs, on_file_pred(ps, f)),
            None => first_where(cs, reaches_pred(ps, to)),
        },
    }
}

/// The square of the chosen candidate.
pub open spec fn disambiguated(
    ps: Seq<PieceModel>,
    piece: Piece,
    white: bool,
    from: PartialSquare,
    to: Square,
) -> Option<Square> {
    match pick_candidate(ps, piece, white, from, to) {
        Some(i) => ps[i].curr(),
        None => None,
    }
}

/// The origin square of a move: the given one when fully known, else the disambiguated one.
pub open spec fn resolve_origin(
    ps: Seq<PieceModel>,
    piece: Piece,
    white: bool,
    from: PartialSquare,
    to: Square,
) -> Option<Square> {
    match from.spec_known() {
        Some(s) => Some(s),
        None => disambiguated(ps, piece, white, from, to),
    }
}

/// The pieces after the one on `sq`, if any, is captured.
pub open spec fn capture_on(ps: Seq<PieceModel>, sq: Square) -> Seq<PieceModel> {
    match occupant(ps, sq) {
        Some(c) => ps.update(c, ps[c].with_entry(None)),
        None => ps,
    }
}

/// A piece after it moved to `to` and, if `promoted_to` is given, took that kind's rules.
pub open spec fn moved_piece(p: PieceModel, to: Square, promoted_to: Option<Piece>) -> PieceModel {
    let moved = p.with_entry(Some(to));
    match promoted_to {
        Some(k) => PieceModel { behavior: PieceRules::spec_for_piece(k), ..moved },
        None => moved,
    }
}

/// A basic move: the piece on `to` is captured, the origin is resolved on the board
/// that results, the piece on the origin moves to `to` and is promoted if asked.
pub open spec fn apply_basic(
    b: BoardModel,
    piece: Piece,
    white: bool,
    to: Square,
    from: PartialSquare,
    promoted_to: Option<Piece>,
) -> Result<BoardModel, MoveError> {
    if promoted_to is Some && !is_promotion_kind(promoted_to.unwrap()) {
        Err(MoveError::InvalidPromotion(promoted_to.unwrap()))
    } else {
        let ps = capture_on(b.pieces, to);
        match resolve_origin(ps, piece, white, from, to) {
            None => Err(MoveError::UnresolvedOrigin),
            Some(o) => match occupant(ps, o) {
                None => Err(MoveError::MissingPiece(o)),
                Some(m) => Ok(after_ply(b, ps.update(m, moved_piece(ps[m], to, promoted_to)))),
            },
        }
    }
}

/// A castling on `rank`: the piece on file E of that rank moves to `king_to`, then the
/// piece on `rook_from` moves to `rook_to`, with no check of any kind.
pub open spec fn apply_castle(
    b: BoardModel,
    rank: Rank,
    rook_from: File,
    king_to: File,
    rook_to: File,
) -> Result<BoardModel, MoveError> {
    let king_sq = Square { file: File::E, rank };
    let rook_sq = Square { file: rook_from, rank };
    let ps = b.pieces;
    match occupant(ps, king_sq) {
        None => Err(MoveError::MissingPiece(king_sq)),
        Some(k) => match occupant(ps, rook_sq) {
            None => Err(MoveError::MissingPiece(rook_sq)),
            Some(r) => Ok(
                after_ply(
                    b,
                    ps.update(k, ps[k].with_entry(Some(Square { file: king_to, rank }))).update(
                        r,
                        ps[r].with_entry(Some(Square { file: rook_to, rank })),
                    ),
                ),
            ),
        },
    }
}

/// The back rank of a side: rank 1 for white, rank 8 for black.
pub open spec fn spec_back_rank(white: bool) -> Rank {
    if white {
        Rank::R1
    } else {
        Rank::R8
    }
}

/// The board after one move, or why the move cannot be applied.
pub open spec fn apply_move(b: BoardModel, m: GameMove) -> Result<BoardModel, MoveError> {
    match m.move_ {
        Move::BasicMove { piece, to, from, is_capture, promoted_to } => apply_basic(
            b,
            piece,
            m.spec_white(),
            to,
            from,
            promoted_to,
        ),
        Move::CastleKingside => apply_castle(
            b,
            spec_back_rank(m.spec_white()),
            File::H,
            File::G,
            File::F,
        ),
        Move::CastleQueenside => apply_castle(
            b,
            spec_back_rank(m.spec_white()),
            File::A,
            File::C,
            File::D,
        ),
    }
}

/// The moves applied in order until one fails: the board reached, and the index of the
/// failing move with its reason, if one failed.
pub open spec fn replay(b: BoardModel, ms: Seq<GameMove>) -> (BoardModel, Option<(int, MoveError)>)
    decreases ms.len(),
{
    if ms.len() == 0 {
        (b, None)
    } else {
        let (prev, failed) = replay(b, ms.drop_last());
        match failed {
            Some(_) => (prev, failed),
            None => match apply_move(prev, ms.last()) {
                Ok(next) => (next, None),
                Err(e) => (prev, Some(((ms.len() - 1) as int, e))),
            },
        }
    }
}

/// Each index that `candidates_upto` lists is below `n`, in range, and a candidate.
pub proof fn lemma_candidates(ps: Seq<PieceModel>, piece: Piece, white: bool, n: int)
    requires
        n <= ps.len(),
    ensures
        forall|j: int|
            0 <= j < candidates_upto(ps, piece, white, n).len() ==> {
                let c = #[trigger] candidates_upto(ps, piece, white, n)[j];
                &&& 0 <= c < n
                &&& is_candidate(ps[c], piece, white)
            },
    decreases n,
{
    if n > 0 {
        lemma_candidates(ps, piece, white, n - 1);
        let prev = candidates_upto(ps, piece, white, n - 1);
        assert forall|j: int| 0 <= j < prev.len() implies #[trigger] prev.push(n - 1)[j]
            == prev[j] by {}
    }
}

/// Once a move has failed, replaying more moves changes nothing.
pub proof fn lemma_replay_stops(b: BoardModel, ms: Seq<GameMove>, n: int, n2: int)
    requires
        0 <= n <= n2 <= ms.len(),
        replay(b, ms.take(n)).1 is Some,
    ensures
        replay(b, ms.take(n2)) == replay(b, ms.take(n)),
    decreases n2,
{
    if n2 > n {
        lemma_replay_stops(b, ms, n, n2 - 1);
        assert(ms.take(n2).drop_last() =~= ms.take(n2 - 1));
    }
}

} // verus!
