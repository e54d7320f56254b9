//! Snapshots of piece placement after any number of plies.
use vstd::prelude::*;

use crate::board::{initial_board, occupant, square_at_ply, Board, BoardModel};
use crate::moves::{
    apply_castle, apply_move, capture_on, hist_lengths, moved_piece, replay, resolve_origin,
    spec_back_rank, GameMove, Move,
};
use crate::piece_data::PieceModel;
use crate::rules::UniquePiece;
use crate::square::{File, Rank, Square};

verus! {

/// One live piece of a position and where it stands.
#[derive(Clone, Copy, Debug, PartialEq, Eq, Structural)]
pub struct PositionEntry {
    pub piece: UniquePiece,
    pub white: bool,
    pub square: Square,
}

/// The placement of the live pieces at one moment, in the board's enumeration order.
pub struct Position {
    entries: Vec<PositionEntry>,
}

impl View for Position {
    type V = Seq<PositionEntry>;

    closed spec fn view(&self) -> Seq<PositionEntry> {
        self.entries@
    }
}

/// The entries, among the first `n` pieces, for the position after `k` plies.
pub open spec fn position_upto(b: BoardModel, k: int, n: int) -> Seq<PositionEntry>
    decreases n,
{
    if n <= 0 {
        seq![]
    } else {
        let prev = position_upto(b, k, n - 1);
        match square_at_ply(b, n - 1, k) {
            Some(s) => prev.push(
                PositionEntry { piece: b.pieces[n - 1].piece, white: b.pieces[n - 1].white, square: s },
            ),
            None => prev,
        }
    }
}

/// The position after `k` plies: each piece that stood on the board then, with its square.
pub open spec fn position_at(b: BoardModel, k: int) -> Seq<PositionEntry> {
    position_upto(b, k, b.pieces.len() as int)
}

/// The latest position of a board.
pub open spec fn current_position(b: BoardModel) -> Seq<PositionEntry> {
    position_at(b, b.marks.len() as int)
}

/// The square of the first entry with the given identity and colour.
pub open spec fn lookup(es: Seq<PositionEntry>, piece: UniquePiece, white: bool) -> Option<Square>
    decreases es.len(),
{
    if es.len() == 0 {
        None
    } else if es[0].piece == piece && es[0].white == white {
        Some(es[0].square)
    } else {
        lookup(es.subrange(1, es.len() as int), piece, white)
    }
}

impl Position {
    /// Where the piece with the given identity and colour stands, if it is on the board.
    pub fn get(&self, key: &(UniquePiece, bool)) -> (r: Option<Square>)
        ensures
            r == lookup(self@, key.0, key.1),
    {
        let mut i: usize = 0;
        assert(self@.subrange(0, self@.len() as int) =~= self@);
        while i < self.entries.len()
            invariant
                i <= self@.len(),
                self@ == self.entries@,
                lookup(self@, key.0, key.1) == lookup(
                    self@.subrange(i as int, self@.len() as int),
                    key.0,
                    key.1,
                ),
            decreases self@.len() - i,
        {
            let e = self.entries[i];
            assert(self@.subrange(i as int, self@.len() as int).subrange(1, self@.len() - i)
                =~= self@.subrange(i + 1, self@.len() as int));
            if e.piece == key.0 && e.white == key.1 {
                return Some(e.square);
            }
            i += 1;
        }
        None
    }

    /// The number of pieces on the board.
    pub fn len(&self) -> (r: usize)
        ensures
            r == self@.len(),
    {
        self.entries.len()
    }

    /// The entry of index `i`, in the board's enumeration order.
    pub fn entry(&self, i: usize) -> (r: PositionEntry)
        requires
            i < self@.len(),
        ensures
            r == self@[i as int],
    {
        self.entries[i]
    }
}

/// A read-only cursor over the positions of a board, numbered from 0 (the start) to the
/// number of plies applied (the latest).
pub struct PositionCursor<'a> {
    board: &'a Board,
    pos_num: usize,
}

impl<'a> PositionCursor<'a> {
    pub closed spec fn spec_board(&self) -> BoardModel {
        self.board@
    }

    pub closed spec fn spec_index(&self) -> int {
        self.pos_num as int
    }

    /// A cursor at the latest position of `board`.
    pub fn new(board: &'a Board) -> (r: PositionCursor<'a>)
        ensures
            r.spec_board() == board@,
            r.spec_index() == board@.marks.len(),
    {
        PositionCursor { board, pos_num: board.position_count() }
    }

    /// The index of the position the cursor is at.
    pub fn index(&self) -> (r: usize)
        ensures
            r == self.spec_index(),
    {
        self.pos_num
    }

    /// The position the cursor is at.
    pub fn generate_position(&self) -> (r: Position)
        ensures
            r@ == position_at(self.spec_board(), self.spec_index()),
    {
        let mut entries: Vec<PositionEntry> = Vec::new();
        let mut p: usize = 0;
        while p < self.board.piece_count()
            invariant
                p <= self.board@.pieces.len(),
                entries@ == position_upto(self.board@, self.pos_num as int, p as int),
            decreases self.board@.pieces.len() - p,
        {
            if let Some(square) = self.board.square_at_ply(p, self.pos_num) {
                let (piece, white) = self.board.identity_of(p);
                entries.push(PositionEntry { piece, white, square });
            }
            p += 1;
        }
        Position { entries }
    }

    /// Moves to the latest position and returns it.
    pub fn curr(&mut self) -> (r: Position)
        ensures
            final(self).spec_board() == old(self).spec_board(),
            final(self).spec_index() == old(self).spec_board().marks.len(),
            r@ == current_position(old(self).spec_board()),
    {
        self.pos_num = self.board.position_count();
        self.generate_position()
    }

    /// Moves one position forward and returns it; `None`, without moving, at the latest.
    pub fn next(&mut self) -> (r: Option<Position>)
        ensures
            final(self).spec_board() == old(self).spec_board(),
            old(self).spec_index() < old(self).spec_board().marks.len() ==> {
                &&& final(self).spec_index() == old(self).spec_index() + 1
                &&& r is Some
                &&& r.unwrap()@ == position_at(old(self).spec_board(), final(self).spec_index())
            },
            old(self).spec_index() >= old(self).spec_board().marks.len() ==> {
                &&& final(self).spec_index() == old(self).spec_index()
                &&& r is None
            },
    {
        if self.pos_num < self.board.position_count() {
            self.pos_num += 1;
            return Some(self.generate_position());
        }
        None
    }

    /// Moves one position back and returns it; `None`, without moving, at the start.
    pub fn prev(&mut self) -> (r: Option<Position>)
        ensures
            final(self).spec_board() == old(self).spec_board(),
            old(self).spec_index() > 0 ==> {
                &&& final(self).spec_index() == old(self).spec_index() - 1
                &&& r is Some
                &&& r.unwrap()@ == position_at(old(self).spec_board(), final(self).spec_index())
            },
            old(self).spec_index() == 0 ==> {
                &&& final(self).spec_index() == 0
                &&& r is None
            },
    {
        if self.pos_num > 0 {
            self.pos_num -= 1;
            return Some(self.generate_position());
        }
        None
    }
}

/// `q` is `p` with possibly more history entries: same identity and colour, and the
/// history of `p` is a prefix of that of `q`.
pub open spec fn piece_grows(p: PieceModel, q: PieceModel) -> bool {
    &&& q.piece == p.piece
    &&& q.white == p.white
    &&& p.hist.len() <= q.hist.len()
    &&& forall|j: int| 0 <= j < p.hist.len() ==> #[trigger] q.hist[j] == p.hist[j]
}

/// Each piece of `qs` grows from the piece of `ps` at the same index.
pub open spec fn pieces_grow(ps: Seq<PieceModel>, qs: Seq<PieceModel>) -> bool {
    &&& qs.len() == ps.len()
    &&& forall|i: int| 0 <= i < ps.len() ==> piece_grows(ps[i], #[trigger] qs[i])
}

/// Each mark lists one history length per piece, none past that piece's history.
pub open spec fn marks_ok(b: BoardModel) -> bool {
    forall|k: int|
        0 <= k < b.marks.len() ==> {
            &&& (#[trigger] b.marks[k]).len() == b.pieces.len()
            &&& forall|p: int|
                0 <= p < b.pieces.len() ==> 0 <= #[trigger] b.marks[k][p] <= b.pieces[p].hist.len()
        }
}

proof fn lemma_grow_update(ps: Seq<PieceModel>, i: int, q: PieceModel)
    requires
        0 <= i < ps.len(),
        piece_grows(ps[i], q),
    ensures
        pieces_grow(ps, ps.update(i, q)),
{
    assert forall|j: int| 0 <= j < ps.len() implies piece_grows(ps[j], #[trigger] ps.update(i, q)[j]) by {
        if j != i {
            assert(ps.update(i, q)[j] == ps[j]);
        }
    }
}

proof fn lemma_grow_trans(ps: Seq<PieceModel>, qs: Seq<PieceModel>, rs: Seq<PieceModel>)
    requires
        pieces_grow(ps, qs),
        pieces_grow(qs, rs),
    ensures
        pieces_grow(ps, rs),
{
    assert forall|i: int| 0 <= i < ps.len() implies piece_grows(ps[i], #[trigger] rs[i]) by {
        assert(piece_grows(ps[i], qs[i]));
        assert(piece_grows(qs[i], rs[i]));
        assert forall|j: int| 0 <= j < ps[i].hist.len() implies #[trigger] rs[i].hist[j]
            == ps[i].hist[j] by {
            assert(qs[i].hist[j] == ps[i].hist[j]);
        }
    }
}

proof fn lemma_grow_refl(ps: Seq<PieceModel>)
    ensures
        pieces_grow(ps, ps),
{
}

/// A move that applies only adds history entries, and marks the position before it.
proof fn lemma_apply_grows(b: BoardModel, m: GameMove)
    requires
        apply_move(b, m) is Ok,
    ensures
        pieces_grow(b.pieces, apply_move(b, m).unwrap().pieces),
        apply_move(b, m).unwrap().marks == b.marks.push(hist_lengths(b.pieces)),
{
    let ps = b.pieces;
    match m.move_ {
        Move::BasicMove { piece, to, from, is_capture, promoted_to } => {
            let ps1 = capture_on(ps, to);
            match occupant(ps, to) {
                Some(c) => {
                    crate::board::lemma_first_at(ps, to, 0);
                    lemma_grow_update(ps, c, ps[c].with_entry(None));
                },
                None => {
                    lemma_grow_refl(ps);
                },
            }
            let b2 = apply_move(b, m).unwrap();
            let o = resolve_origin(ps1, piece, m.spec_white(), from, to).unwrap();
            let mi = occupant(ps1, o).unwrap();
            crate::board::lemma_first_at(ps1, o, 0);
            assert(b2.pieces == ps1.update(mi, moved_piece(ps1[mi], to, promoted_to)));
            lemma_grow_update(ps1, mi, moved_piece(ps1[mi], to, promoted_to));
            lemma_grow_trans(ps, ps1, b2.pieces);
        },
        Move::CastleKingside => {
            lemma_castle_grows(b, spec_back_rank(m.spec_white()), File::H, File::G, File::F);
        },
        Move::CastleQueenside => {
            lemma_castle_grows(b, spec_back_rank(m.spec_white()), File::A, File::C, File::D);
        },
    }
}

proof fn lemma_castle_grows(b: BoardModel, rank: Rank, rook_from: File, king_to: File, rook_to: File)
    requires
        apply_castle(b, rank, rook_from, king_to, rook_to) is Ok,
    ensures
        pieces_grow(b.pieces, apply_castle(b, rank, rook_from, king_to, rook_to).unwrap().pieces),
        apply_castle(b, rank, rook_from, king_to, rook_to).unwrap().marks == b.marks.push(
            hist_lengths(b.pieces),
        ),
{
    let ps = b.pieces;
    let king_sq = Square { file: File::E, rank };
    let rook_sq = Square { file: rook_from, rank };
    let k = occupant(ps, king_sq).unwrap();
    let r = occupant(ps, rook_sq).unwrap();
    crate::board::lemma_first_at(ps, king_sq, 0);
    crate::board::lemma_first_at(ps, rook_sq, 0);
    let qs = apply_castle(b, rank, rook_from, king_to, rook_to).unwrap().pieces;
    assert forall|i: int| 0 <= i < ps.len() implies piece_grows(ps[i], #[trigger] qs[i]) by {
        if i != r && i != k {
            assert(qs[i] == ps[i]);
        }
    }
}

/// A board that grew from `b` by one ply keeps the positions of `b` and its marks stay
/// well-formed.
proof fn lemma_position_kept(b: BoardModel, b2: BoardModel, k: int)
    requires
        marks_ok(b),
        pieces_grow(b.pieces, b2.pieces),
        b2.marks == b.marks.push(hist_lengths(b.pieces)),
        0 <= k <= b.marks.len(),
    ensures
        marks_ok(b2),
        position_at(b2, k) == position_at(b, k),
{
    assert forall|p: int| 0 <= p < b.pieces.len() implies #[trigger] square_at_ply(b2, p, k)
        == square_at_ply(b, p, k) by {
        assert(piece_grows(b.pieces[p], b2.pieces[p]));
        if k < b.marks.len() {
            assert(b2.marks[k] == b.marks[k]);
        } else {
            assert(b2.marks[k] == hist_lengths(b.pieces));
        }
    }
    lemma_position_upto_kept(b, b2, k, b.pieces.len() as int);
    assert forall|j: int| 0 <= j < b2.marks.len() implies {
        &&& (#[trigger] b2.marks[j]).len() == b2.pieces.len()
        &&& forall|p: int|
            0 <= p < b2.pieces.len() ==> 0 <= #[trigger] b2.marks[j][p] <= b2.pieces[p].hist.len()
    } by {
        assert forall|p: int| 0 <= p < b2.pieces.len() implies 0 <= #[trigger] b2.marks[j][p]
            <= b2.pieces[p].hist.len() by {
            assert(piece_grows(b.pieces[p], b2.pieces[p]));
            if j < b.marks.len() {
                assert(b2.marks[j] == b.marks[j]);
            }
        }
    }
}

proof fn lemma_position_upto_kept(b: BoardModel, b2: BoardModel, k: int, n: int)
    requires
        pieces_grow(b.pieces, b2.pieces),
        n <= b.pieces.len(),
        forall|p: int|
            0 <= p < b.pieces.len() ==> #[trigger] square_at_ply(b2, p, k) == square_at_ply(b, p, k),
    ensures
        position_upto(b2, k, n) == position_upto(b, k, n),
    decreases n,
{
    if n > 0 {
        lemma_position_upto_kept(b, b2, k, n - 1);
        assert(square_at_ply(b2, n - 1, k) == square_at_ply(b, n - 1, k));
        assert(piece_grows(b.pieces[n - 1], b2.pieces[n - 1]));
    }
}

proof fn lemma_replay_positions(b: BoardModel, ms: Seq<GameMove>, k: int)
    requires
        marks_ok(b),
        replay(b, ms).1 is None,
        0 <= k <= ms.len(),
    ensures
        replay(b, ms.take(k)).1 is None,
        marks_ok(replay(b, ms).0),
        replay(b, ms).0.marks.len() == b.marks.len() + ms.len(),
        position_at(replay(b, ms).0, b.marks.len() + k) == current_position(
            replay(b, ms.take(k)).0,
        ),
    decreases ms.len(),
{
    if ms.len() == 0 {
        assert(ms.take(k) =~= ms);
    } else {
        let init = ms.drop_last();
        let prev = replay(b, init).0;
        let next = replay(b, ms).0;
        lemma_replay_positions(b, init, if k < ms.len() {
            k
        } else {
            0
        });
        lemma_apply_grows(prev, ms.last());
        lemma_position_kept(prev, next, if k < ms.len() {
            b.marks.len() + k
        } else {
            0
        });
        if k == ms.len() {
            assert(ms.take(k) =~= ms);
        } else {
            assert(init.take(k) =~= ms.take(k));
        }
    }
}

/// Cursor consistency: on a board reached from a fresh one by applying `ms` (each move
/// succeeding), the position the cursor shows at index `k` is the latest position of a
/// fresh board to which only the first `k` moves were applied.
pub proof fn lemma_cursor_replays(ms: Seq<GameMove>, k: int)
    requires
        replay(initial_board(), ms).1 is None,
        0 <= k <= ms.len(),
    ensures
        replay(initial_board(), ms).0.marks.len() == ms.len(),
        replay(initial_board(), ms.take(k)).1 is None,
        position_at(replay(initial_board(), ms).0, k) == current_position(
            replay(initial_board(), ms.take(k)).0,
        ),
{
    lemma_replay_positions(initial_board(), ms, k);
}

} // verus!
