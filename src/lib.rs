//! Chess piece tracking and geometric move legality, driven by structured move
//! sequences in algebraic notation.
//!
//! The board owns 32 piece records, each with the append-only history of its squares.
//! Movement rules compute the legal destinations of a piece from the board's occupancy;
//! moves are applied one at a time, resolving partly known origins by a first-match
//! search; a cursor replays the history into point-in-time positions.
pub mod board;
pub mod moves;
pub mod piece_data;
pub mod position_cursor;
pub mod rules;
pub mod square;

pub use board::{Board, BoardModel};
pub use moves::{ChessError, GameMove, Move, MoveError};
pub use piece_data::{PieceData, PieceModel};
pub use position_cursor::{Position, PositionCursor, PositionEntry};
pub use rules::{
    BishopRules, KingRules, KnightRules, PawnRules, PieceRules, QueenRules, RookRules,
    UniquePiece,
};
pub use square::{File, PartialSquare, Piece, Rank, Square};
