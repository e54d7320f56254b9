use std::collections::HashSet;

use chess_move_validator::{
    BishopRules, Board, File, KingRules, KnightRules, PawnRules, PieceData, PieceRules,
    QueenRules, Rank, RookRules, Square, UniquePiece,
};

fn at(file: File, rank: Rank) -> Square {
    Square::new_known(file, rank)
}

fn same_squares(expected: &[Square], actual: &[Square]) {
    let expected_set: HashSet<_> = expected.iter().collect();
    let actual_set: HashSet<_> = actual.iter().collect();
    assert_eq!(expected_set, actual_set);
    assert_eq!(expected.len(), actual.len());
}

#[test]
fn test_pawn_behavior() {
    let board = Board::new();
    let pawn = board
        .get_piece_data_at_square(&at(File::A, Rank::R2))
        .expect("mising piece.");
    assert_eq!(pawn.piece, UniquePiece::APawn);
    let valid_squares = pawn.behavior.get_valid_squares(pawn, &board);
    assert_eq!(2, valid_squares.len());
}

#[test]
fn test_rook_behavior() {
    let board = Board::new();
    let rook = board
        .get_piece_data_at_square(&at(File::A, Rank::R1))
        .expect("missing piece.");
    assert_eq!(rook.piece, UniquePiece::QRook);
    let valid_squares = rook.behavior.get_valid_squares(rook, &board);
    assert_eq!(0, valid_squares.len());
}

#[test]
fn test_knight_behavior() {
    let board = Board::new();
    let knight = board
        .get_piece_data_at_square(&at(File::B, Rank::R1))
        .expect("missing piece.");
    assert_eq!(knight.piece, UniquePiece::QKnight);
    let valid_squares = knight.behavior.get_valid_squares(knight, &board);
    assert_eq!(2, valid_squares.len());
}

#[test]
fn test_bishop_behavior() {
    let board = Board::new();
    let bishop = board
        .get_piece_data_at_square(&at(File::C, Rank::R1))
        .expect("missing piece.");
    assert_eq!(bishop.piece, UniquePiece::QBishop);
    let valid_squares = bishop.behavior.get_valid_squares(bishop, &board);
    assert_eq!(0, valid_squares.len());
}

#[test]
fn test_queen_behavior() {
    let board = Board::new();
    let queen = board
        .get_piece_data_at_square(&at(File::D, Rank::R1))
        .expect("missing piece.");
    assert_eq!(queen.piece, UniquePiece::Queen);
    let valid_squares = queen.behavior.get_valid_squares(queen, &board);
    assert_eq!(0, valid_squares.len());
}

#[test]
fn test_king_behavior() {
    let board = Board::new();
    let king = board
        .get_piece_data_at_square(&at(File::E, Rank::R1))
        .expect("missing piece.");
    assert_eq!(king.piece, UniquePiece::King);
    let valid_squares = king.behavior.get_valid_squares(king, &board);
    assert_eq!(0, valid_squares.len());
}

#[test]
fn test_move_only() {
    let pawn = PawnRules::new();
    let squares = pawn.get_move_only_squares(&at(File::E, Rank::R2), true, false);
    assert_eq!(squares, vec![at(File::E, Rank::R4), at(File::E, Rank::R3)]);
    let squares = pawn.get_move_only_squares(&at(File::E, Rank::R7), false, true);
    assert_eq!(squares, vec![at(File::E, Rank::R6)]);
    let squares = pawn.get_move_only_squares(&at(File::E, Rank::R8), true, true);
    assert!(squares.is_empty());
}

#[test]
fn pawn_capture_squares_stay_on_the_board() {
    let pawn = PawnRules::new();
    let squares = pawn.get_capture_only_squares(&at(File::A, Rank::R2), true);
    assert_eq!(squares, vec![at(File::B, Rank::R3)]);
    let squares = pawn.get_capture_only_squares(&at(File::D, Rank::R5), false);
    assert_eq!(squares, vec![at(File::E, Rank::R4), at(File::C, Rank::R4)]);
}

#[test]
fn knight_and_king_targets() {
    let knight = KnightRules::new();
    same_squares(
        &[at(File::B, Rank::R3), at(File::C, Rank::R2)],
        &knight.get_move_only_squares(&at(File::A, Rank::R1)),
    );
    assert_eq!(knight.get_capture_only_squares(&at(File::D, Rank::R4)).len(), 8);
    let king = KingRules::new();
    same_squares(
        &[at(File::G, Rank::R8), at(File::G, Rank::R7), at(File::H, Rank::R7)],
        &king.get_move_only_squares(&at(File::H, Rank::R8)),
    );
    assert_eq!(king.get_capture_only_squares(&at(File::E, Rank::R4)).len(), 8);
}

#[test]
fn initial_squares_by_identity() {
    assert_eq!(
        RookRules::new().get_initial_square(UniquePiece::KRook, false),
        at(File::H, Rank::R8)
    );
    assert_eq!(
        KnightRules::new().get_initial_square(UniquePiece::QKnight, true),
        at(File::B, Rank::R1)
    );
    assert_eq!(
        BishopRules::new().get_initial_square(UniquePiece::KBishop, true),
        at(File::F, Rank::R1)
    );
    assert_eq!(QueenRules::new().get_initial_square(false), at(File::D, Rank::R8));
    assert_eq!(KingRules::new().get_initial_square(true), at(File::E, Rank::R1));
    assert_eq!(
        PawnRules::new().get_initial_square(UniquePiece::GPawn, false),
        at(File::G, Rank::R7)
    );
}

#[test]
fn piece_records_start_with_one_entry() {
    let pawn = PieceData::new_pawn(File::C, false);
    assert_eq!(pawn.piece, UniquePiece::CPawn);
    assert_eq!(pawn.curr_square(), Some(at(File::C, Rank::R7)));
    assert!(!pawn.has_moved());
    let mut rook = PieceData::new_rook(File::H, true);
    assert_eq!(rook.piece, UniquePiece::KRook);
    rook.move_unchecked(at(File::H, Rank::R4));
    assert!(rook.has_moved());
    assert_eq!(rook.curr_square(), Some(at(File::H, Rank::R4)));
    rook.capture();
    assert_eq!(rook.curr_square(), None);
    assert_eq!(rook.square_hist.len(), 3);
    assert!(matches!(PieceData::new_knight(File::G, false).behavior, PieceRules::Knight(_)));
    assert_eq!(PieceData::new_bishop(File::C, true).piece, UniquePiece::QBishop);
    assert_eq!(PieceData::new_queen(true).curr_square(), Some(at(File::D, Rank::R1)));
    assert_eq!(PieceData::new_king(false).curr_square(), Some(at(File::E, Rank::R8)));
}

#[test]
fn sliding_stops_at_friends_and_takes_enemies() {
    let mut board = Board::new();
    // Open the d-file for the white queen: the d2 pawn is gone.
    let pawn = board
        .get_mut_piece_data_at_square(&at(File::D, Rank::R2))
        .expect("missing piece");
    pawn.capture();
    let queen = board
        .get_piece_data_at_square(&at(File::D, Rank::R1))
        .expect("missing piece");
    let up = queen
        .behavior
        .get_linear_squares_with_offsets(queen, &board, 0, 1);
    assert_eq!(
        up,
        vec![
            at(File::D, Rank::R2),
            at(File::D, Rank::R3),
            at(File::D, Rank::R4),
            at(File::D, Rank::R5),
            at(File::D, Rank::R6),
            at(File::D, Rank::R7),
        ]
    );
    let left = queen
        .behavior
        .get_linear_squares_with_offsets(queen, &board, -1, 0);
    assert!(left.is_empty());
    let down = queen
        .behavior
        .get_linear_squares_with_offsets(queen, &board, 0, -1);
    assert!(down.is_empty());
    assert!(queen.behavior.get_diagonal_squares(queen, &board).is_empty());
    assert_eq!(queen.behavior.get_straight_squares(queen, &board).len(), 6);
    let rules = PieceRules::for_piece(chess_move_validator::Piece::Rook);
    assert!(matches!(rules, PieceRules::Rook(_)));
}

#[test]
fn squares_offset_within_the_board() {
    let e4 = at(File::E, Rank::R4);
    assert_eq!(e4.new_with_offset(1, 2), Some(at(File::F, Rank::R6)));
    assert_eq!(e4.new_with_offset(-4, -3), Some(at(File::A, Rank::R1)));
    assert_eq!(e4.new_with_offset(4, 0), None);
    assert_eq!(e4.new_with_offset(0, -4), None);
    assert_eq!(File::from_index(7), Some(File::H));
    assert_eq!(Rank::from_index(8), None);
    assert_eq!(File::C.index(), 2);
    assert_eq!(Rank::R5.index(), 4);
}
