use std::collections::HashSet;

use chess_move_validator::{
    Board, ChessError, File, GameMove, Move, MoveError, PartialSquare, Piece, PieceRules, Rank,
    Square, UniquePiece,
};

fn sq(file: File, rank: Rank) -> Square {
    Square::new_known(file, rank)
}

fn unknown() -> PartialSquare {
    PartialSquare::new(None, None)
}

fn from_file(file: File) -> PartialSquare {
    PartialSquare::new(Some(file), None)
}

/// A basic move; `number` is given for white's moves only.
fn basic(
    number: Option<u32>,
    piece: Piece,
    to: Square,
    from: PartialSquare,
    is_capture: bool,
    promoted_to: Option<Piece>,
) -> GameMove {
    GameMove {
        number,
        move_: Move::BasicMove {
            piece,
            to,
            from,
            is_capture,
            promoted_to,
        },
    }
}

fn push(number: Option<u32>, piece: Piece, to: Square) -> GameMove {
    basic(number, piece, to, unknown(), false, None)
}

fn take(number: Option<u32>, piece: Piece, file: File, to: Square) -> GameMove {
    basic(number, piece, to, from_file(file), true, None)
}

fn assert_valid_squares(expected: &[Square], actual: &[Square]) {
    let expected_set: HashSet<_> = expected.iter().collect();
    let actual_set: HashSet<_> = actual.iter().collect();
    assert_eq!(expected_set, actual_set);
    assert_eq!(expected.len(), actual.len());
}

/// "1. e4 d5"
fn e4_d5() -> Vec<GameMove> {
    vec![
        push(Some(1), Piece::Pawn, sq(File::E, Rank::R4)),
        push(None, Piece::Pawn, sq(File::D, Rank::R5)),
    ]
}

#[test]
fn test_pawn_capture() {
    let mut board = Board::new();
    // 1. d4 e5
    let moves = vec![
        push(Some(1), Piece::Pawn, sq(File::D, Rank::R4)),
        push(None, Piece::Pawn, sq(File::E, Rank::R5)),
    ];
    assert!(board.add_pgn_moves(&moves).is_ok());
    let pawn = board
        .get_piece_data_at_square(&sq(File::D, Rank::R4))
        .expect("missing piece.");
    assert_eq!(pawn.piece, UniquePiece::DPawn);
    let valid_squares = pawn.behavior.get_valid_squares(pawn, &board);
    assert_valid_squares(&[sq(File::E, Rank::R5), sq(File::D, Rank::R5)], &valid_squares);

    let pawn = board
        .get_piece_data_at_square(&sq(File::E, Rank::R5))
        .expect("missing piece.");
    assert_eq!(pawn.piece, UniquePiece::EPawn);
    let valid_squares = pawn.behavior.get_valid_squares(pawn, &board);
    assert_valid_squares(&[sq(File::D, Rank::R4), sq(File::E, Rank::R4)], &valid_squares);
}

#[test]
fn test_pawn_en_passant() {
    // En passant is not offered: after 1. e4 a6 2. e5 d5 the pawn on e5 may only advance.
    let mut board = Board::new();
    let moves = vec![
        push(Some(1), Piece::Pawn, sq(File::E, Rank::R4)),
        push(None, Piece::Pawn, sq(File::A, Rank::R6)),
        push(Some(2), Piece::Pawn, sq(File::E, Rank::R5)),
        push(None, Piece::Pawn, sq(File::D, Rank::R5)),
    ];
    assert!(board.add_pgn_moves(&moves).is_ok());
    let valid = board.legal_moves_from_square(&sq(File::E, Rank::R5));
    assert_valid_squares(&[sq(File::E, Rank::R6)], &valid);
}

#[test]
fn test_rook_capture() {
    let mut board = Board::new();

    // Remove pawns that are in the way of testing rook
    let pawn = board
        .get_mut_piece_data_at_square(&sq(File::A, Rank::R2))
        .expect("missing piece");
    pawn.capture();
    let pawn = board
        .get_mut_piece_data_at_square(&sq(File::A, Rank::R7))
        .expect("missing piece.");
    pawn.capture();

    let rook = board
        .get_piece_data_at_square(&sq(File::A, Rank::R1))
        .expect("missing piece.");
    assert_eq!(rook.piece, UniquePiece::QRook);
    let valid_squares = rook.behavior.get_valid_squares(rook, &board);
    assert_valid_squares(
        &[
            sq(File::A, Rank::R2),
            sq(File::A, Rank::R3),
            sq(File::A, Rank::R4),
            sq(File::A, Rank::R5),
            sq(File::A, Rank::R6),
            sq(File::A, Rank::R7),
            sq(File::A, Rank::R8),
        ],
        &valid_squares,
    );

    let rook = board
        .get_piece_data_at_square(&sq(File::A, Rank::R8))
        .expect("missing piece.");
    assert_eq!(rook.piece, UniquePiece::QRook);
    let valid_squares = rook.behavior.get_valid_squares(rook, &board);
    assert_valid_squares(
        &[
            sq(File::A, Rank::R1),
            sq(File::A, Rank::R2),
            sq(File::A, Rank::R3),
            sq(File::A, Rank::R4),
            sq(File::A, Rank::R5),
            sq(File::A, Rank::R6),
            sq(File::A, Rank::R7),
        ],
        &valid_squares,
    );
}

/// "1. Nc3 Nf6 2. Ne4 a6"
fn knight_game() -> Vec<GameMove> {
    vec![
        push(Some(1), Piece::Knight, sq(File::C, Rank::R3)),
        push(None, Piece::Knight, sq(File::F, Rank::R6)),
        push(Some(2), Piece::Knight, sq(File::E, Rank::R4)),
        push(None, Piece::Pawn, sq(File::A, Rank::R6)),
    ]
}

#[test]
fn test_knight_capture() {
    let mut board = Board::new();
    assert!(board.add_pgn_moves(&knight_game()).is_ok());
    let knight = board
        .get_piece_data_at_square(&sq(File::F, Rank::R6))
        .expect("missing piece");
    assert_eq!(knight.piece, UniquePiece::KKnight);
    let valid_squares = knight.behavior.get_valid_squares(knight, &board);
    assert_valid_squares(
        &[
            sq(File::G, Rank::R8),
            sq(File::H, Rank::R5),
            sq(File::G, Rank::R4),
            sq(File::E, Rank::R4),
            sq(File::D, Rank::R5),
        ],
        &valid_squares,
    );

    let knight = board
        .get_piece_data_at_square(&sq(File::E, Rank::R4))
        .expect("missing piece");
    assert_eq!(knight.piece, UniquePiece::QKnight);
    let valid_squares = knight.behavior.get_valid_squares(knight, &board);
    assert_valid_squares(
        &[
            sq(File::F, Rank::R6),
            sq(File::G, Rank::R5),
            sq(File::G, Rank::R3),
            sq(File::C, Rank::R3),
            sq(File::C, Rank::R5),
            sq(File::D, Rank::R6),
        ],
        &valid_squares,
    );
}

#[test]
fn test_bishop_capture() {
    let mut board = Board::new();
    // 1. b3 e6 2. Ba3 a6
    let moves = vec![
        push(Some(1), Piece::Pawn, sq(File::B, Rank::R3)),
        push(None, Piece::Pawn, sq(File::E, Rank::R6)),
        push(Some(2), Piece::Bishop, sq(File::A, Rank::R3)),
        push(None, Piece::Pawn, sq(File::A, Rank::R6)),
    ];
    assert!(board.add_pgn_moves(&moves).is_ok());
    let bishop = board
        .get_piece_data_at_square(&sq(File::A, Rank::R3))
        .expect("missing piece.");
    assert_eq!(bishop.piece, UniquePiece::QBishop);
    let valid_squares = bishop.behavior.get_valid_squares(bishop, &board);
    assert_valid_squares(
        &[
            sq(File::B, Rank::R4),
            sq(File::C, Rank::R5),
            sq(File::D, Rank::R6),
            sq(File::E, Rank::R7),
            sq(File::F, Rank::R8),
            sq(File::B, Rank::R2),
            sq(File::C, Rank::R1),
        ],
        &valid_squares,
    );

    let bishop = board
        .get_piece_data_at_square(&sq(File::F, Rank::R8))
        .expect("missing piece.");
    assert_eq!(bishop.piece, UniquePiece::KBishop);
    let valid_squares = bishop.behavior.get_valid_squares(bishop, &board);
    assert_valid_squares(
        &[
            sq(File::A, Rank::R3),
            sq(File::B, Rank::R4),
            sq(File::C, Rank::R5),
            sq(File::D, Rank::R6),
            sq(File::E, Rank::R7),
        ],
        &valid_squares,
    );
}

#[test]
fn test_queen_capture() {
    let mut board = Board::new();
    // 1. c3 e6 2. Qa4 Qh4
    let moves = vec![
        push(Some(1), Piece::Pawn, sq(File::C, Rank::R3)),
        push(None, Piece::Pawn, sq(File::E, Rank::R6)),
        push(Some(2), Piece::Queen, sq(File::A, Rank::R4)),
        push(None, Piece::Queen, sq(File::H, Rank::R4)),
    ];
    assert!(board.add_pgn_moves(&moves).is_ok());
    let queen = board
        .get_piece_data_at_square(&sq(File::A, Rank::R4))
        .expect("missing piece.");
    assert_eq!(queen.piece, UniquePiece::Queen);
    let valid_squares = queen.behavior.get_valid_squares(queen, &board);
    assert_valid_squares(
        &[
            sq(File::A, Rank::R3),
            sq(File::B, Rank::R3),
            sq(File::C, Rank::R2),
            sq(File::D, Rank::R1),
            sq(File::A, Rank::R5),
            sq(File::A, Rank::R6),
            sq(File::A, Rank::R7),
            sq(File::B, Rank::R4),
            sq(File::C, Rank::R4),
            sq(File::D, Rank::R4),
            sq(File::E, Rank::R4),
            sq(File::F, Rank::R4),
            sq(File::G, Rank::R4),
            sq(File::H, Rank::R4),
            sq(File::B, Rank::R5),
            sq(File::C, Rank::R6),
            sq(File::D, Rank::R7),
        ],
        &valid_squares,
    );

    let queen = board
        .get_piece_data_at_square(&sq(File::H, Rank::R4))
        .expect("missing piece.");
    assert_eq!(queen.piece, UniquePiece::Queen);
    let valid_squares = queen.behavior.get_valid_squares(queen, &board);
    assert_valid_squares(
        &[
            sq(File::H, Rank::R3),
            sq(File::H, Rank::R2),
            sq(File::G, Rank::R3),
            sq(File::F, Rank::R2),
            sq(File::A, Rank::R4),
            sq(File::B, Rank::R4),
            sq(File::C, Rank::R4),
            sq(File::D, Rank::R4),
            sq(File::E, Rank::R4),
            sq(File::F, Rank::R4),
            sq(File::G, Rank::R4),
            sq(File::G, Rank::R5),
            sq(File::F, Rank::R6),
            sq(File::E, Rank::R7),
            sq(File::D, Rank::R8),
            sq(File::H, Rank::R5),
            sq(File::H, Rank::R6),
        ],
        &valid_squares,
    );
}

/// "1. c4 f5 2. c5 f4 3. c6 f3 4. cxb7 fxg2 5. bxc8=N gxf8=N"
fn promotion_game() -> Vec<GameMove> {
    vec![
        push(Some(1), Piece::Pawn, sq(File::C, Rank::R4)),
        push(None, Piece::Pawn, sq(File::F, Rank::R5)),
        push(Some(2), Piece::Pawn, sq(File::C, Rank::R5)),
        push(None, Piece::Pawn, sq(File::F, Rank::R4)),
        push(Some(3), Piece::Pawn, sq(File::C, Rank::R6)),
        push(None, Piece::Pawn, sq(File::F, Rank::R3)),
        take(Some(4), Piece::Pawn, File::C, sq(File::B, Rank::R7)),
        take(None, Piece::Pawn, File::F, sq(File::G, Rank::R2)),
        basic(
            Some(5),
            Piece::Pawn,
            sq(File::C, Rank::R8),
            from_file(File::B),
            true,
            Some(Piece::Knight),
        ),
        basic(
            None,
            Piece::Pawn,
            sq(File::F, Rank::R8),
            from_file(File::G),
            true,
            Some(Piece::Knight),
        ),
    ]
}

#[test]
fn test_promotion() {
    let mut board = Board::new();
    assert!(board.add_pgn_moves(&promotion_game()).is_ok());
    let promoted_knight = board
        .get_piece_data_at_square(&sq(File::C, Rank::R8))
        .expect("missing piece.");
    let valid_squares = promoted_knight
        .behavior
        .get_valid_squares(promoted_knight, &board);
    assert_valid_squares(
        &[
            sq(File::A, Rank::R7),
            sq(File::B, Rank::R6),
            sq(File::D, Rank::R6),
            sq(File::E, Rank::R7),
        ],
        &valid_squares,
    );
}

#[test]
fn promoted_piece_keeps_pawn_identity() {
    let mut board = Board::new();
    assert!(board.add_pgn_moves(&promotion_game()).is_ok());
    let promoted = board
        .get_piece_data_at_square(&sq(File::C, Rank::R8))
        .expect("missing piece");
    assert!(promoted.white);
    assert!(matches!(promoted.behavior, PieceRules::Knight(_)));
    // The file-b origin resolves to the first white pawn on file b in enumeration order.
    assert_eq!(promoted.piece, UniquePiece::BPawn);
    let black = board
        .get_piece_data_at_square(&sq(File::F, Rank::R8))
        .expect("missing piece");
    assert!(!black.white);
    assert_eq!(black.piece, UniquePiece::FPawn);
    assert!(matches!(black.behavior, PieceRules::Knight(_)));
    // The black bishop that stood on c8 was captured.
    let bishop = board.get_valid_squares_for_piece(UniquePiece::QBishop, false);
    assert!(bishop.is_empty());
}

#[test]
fn basic_sequence_gives_two_pawn_moves() {
    let mut board = Board::new();
    assert!(board.add_pgn_moves(&e4_d5()).is_ok());
    let legal = board.legal_moves_from_square(&sq(File::E, Rank::R4));
    assert_eq!(legal.len(), 2);
    assert_valid_squares(&[sq(File::D, Rank::R5), sq(File::E, Rank::R5)], &legal);
}

#[test]
fn capture_removes_the_taken_pawn() {
    let mut board = Board::new();
    assert!(board.add_pgn_moves(&e4_d5()).is_ok());
    let capture = vec![take(Some(2), Piece::Pawn, File::E, sq(File::D, Rank::R5))];
    assert!(board.add_pgn_moves(&capture).is_ok());
    let mut cursor = board.position_cursor();
    let pos = cursor.curr();
    assert_eq!(pos.get(&(UniquePiece::EPawn, true)), Some(sq(File::D, Rank::R5)));
    assert_eq!(pos.get(&(UniquePiece::DPawn, false)), None);
    assert_eq!(pos.len(), 31);
}

#[test]
fn disambiguation_picks_the_queenside_knight() {
    let mut board = Board::new();
    assert!(board.add_pgn_moves(&knight_game()).is_ok());
    let knight = board
        .get_piece_data_at_square(&sq(File::E, Rank::R4))
        .expect("missing piece");
    assert_eq!(knight.piece, UniquePiece::QKnight);
    assert!(knight.white);
    let by_identity = board.get_valid_squares_for_piece(UniquePiece::QKnight, true);
    assert_eq!(by_identity.len(), 6);
    let kingside = board.get_valid_squares_for_piece(UniquePiece::KKnight, true);
    assert_valid_squares(&[sq(File::F, Rank::R3), sq(File::H, Rank::R3)], &kingside);
}

#[test]
fn fresh_board_has_every_piece_on_its_start_square() {
    let board = Board::new();
    let mut cursor = board.position_cursor();
    let pos = cursor.curr();
    assert_eq!(pos.len(), 32);
    assert_eq!(pos.get(&(UniquePiece::APawn, true)), Some(sq(File::A, Rank::R2)));
    assert_eq!(pos.get(&(UniquePiece::HPawn, false)), Some(sq(File::H, Rank::R7)));
    assert_eq!(pos.get(&(UniquePiece::QRook, true)), Some(sq(File::A, Rank::R1)));
    assert_eq!(pos.get(&(UniquePiece::KKnight, false)), Some(sq(File::G, Rank::R8)));
    assert_eq!(pos.get(&(UniquePiece::QBishop, true)), Some(sq(File::C, Rank::R1)));
    assert_eq!(pos.get(&(UniquePiece::Queen, false)), Some(sq(File::D, Rank::R8)));
    assert_eq!(pos.get(&(UniquePiece::King, true)), Some(sq(File::E, Rank::R1)));
    assert_eq!(pos.get(&(UniquePiece::King, false)), Some(sq(File::E, Rank::R8)));
    assert_eq!(board.position_count(), 0);
}

#[test]
fn cursor_walks_back_through_the_plies() {
    let mut board = Board::new();
    assert!(board.add_pgn_moves(&e4_d5()).is_ok());
    let capture = vec![take(Some(2), Piece::Pawn, File::E, sq(File::D, Rank::R5))];
    assert!(board.add_pgn_moves(&capture).is_ok());
    assert_eq!(board.position_count(), 3);

    let mut cursor = board.position_cursor();
    assert_eq!(cursor.index(), 3);
    assert!(cursor.next().is_none());

    let after_two = cursor.prev().expect("position after two plies");
    assert_eq!(after_two.get(&(UniquePiece::EPawn, true)), Some(sq(File::E, Rank::R4)));
    assert_eq!(after_two.get(&(UniquePiece::DPawn, false)), Some(sq(File::D, Rank::R5)));

    let after_one = cursor.prev().expect("position after one ply");
    assert_eq!(after_one.get(&(UniquePiece::EPawn, true)), Some(sq(File::E, Rank::R4)));
    assert_eq!(after_one.get(&(UniquePiece::DPawn, false)), Some(sq(File::D, Rank::R7)));

    let start = cursor.prev().expect("starting position");
    assert_eq!(start.get(&(UniquePiece::EPawn, true)), Some(sq(File::E, Rank::R2)));
    assert_eq!(start.len(), 32);
    assert!(cursor.prev().is_none());
    assert_eq!(cursor.index(), 0);

    let again = cursor.next().expect("position after one ply");
    assert_eq!(again.get(&(UniquePiece::EPawn, true)), Some(sq(File::E, Rank::R4)));
    assert_eq!(cursor.index(), 1);
}

#[test]
fn cursor_matches_a_replay_of_the_first_moves() {
    let moves = promotion_game();
    let mut full = Board::new();
    assert!(full.add_pgn_moves(&moves).is_ok());
    for k in 0..=moves.len() {
        let mut partial = Board::new();
        let prefix: Vec<GameMove> = moves[..k].to_vec();
        assert!(partial.add_pgn_moves(&prefix).is_ok());
        let mut replayed = partial.position_cursor();
        let expected = replayed.curr();

        let mut cursor = full.position_cursor();
        for _ in k..moves.len() {
            assert!(cursor.prev().is_some());
        }
        assert_eq!(cursor.index(), k);
        let got = cursor.generate_position();
        assert_eq!(got.len(), expected.len());
        for i in 0..got.len() {
            assert_eq!(got.entry(i), expected.entry(i));
        }
    }
}

#[test]
fn kingside_castling_moves_king_and_rook() {
    let mut board = Board::new();
    // 1. e4 e5 2. Nf3 Nc6 3. Bc4 Bc5 4. O-O O-O
    let moves = vec![
        push(Some(1), Piece::Pawn, sq(File::E, Rank::R4)),
        push(None, Piece::Pawn, sq(File::E, Rank::R5)),
        push(Some(2), Piece::Knight, sq(File::F, Rank::R3)),
        push(None, Piece::Knight, sq(File::F, Rank::R6)),
        push(Some(3), Piece::Bishop, sq(File::C, Rank::R4)),
        push(None, Piece::Bishop, sq(File::C, Rank::R5)),
        GameMove {
            number: Some(4),
            move_: Move::CastleKingside,
        },
        GameMove {
            number: None,
            move_: Move::CastleKingside,
        },
    ];
    assert!(board.add_pgn_moves(&moves).is_ok());
    let mut cursor = board.position_cursor();
    let pos = cursor.curr();
    assert_eq!(pos.get(&(UniquePiece::King, true)), Some(sq(File::G, Rank::R1)));
    assert_eq!(pos.get(&(UniquePiece::KRook, true)), Some(sq(File::F, Rank::R1)));
    assert_eq!(pos.get(&(UniquePiece::King, false)), Some(sq(File::G, Rank::R8)));
    assert_eq!(pos.get(&(UniquePiece::KRook, false)), Some(sq(File::F, Rank::R8)));
}

#[test]
fn queenside_castling_moves_king_and_rook() {
    let mut board = Board::new();
    let moves = vec![GameMove {
        number: Some(1),
        move_: Move::CastleQueenside,
    }];
    assert!(board.add_pgn_moves(&moves).is_ok());
    let mut cursor = board.position_cursor();
    let pos = cursor.curr();
    assert_eq!(pos.get(&(UniquePiece::King, true)), Some(sq(File::C, Rank::R1)));
    assert_eq!(pos.get(&(UniquePiece::QRook, true)), Some(sq(File::D, Rank::R1)));
}

#[test]
fn castling_without_a_king_fails() {
    let mut board = Board::new();
    // 1. e4 e5 2. Ke2
    let moves = vec![
        push(Some(1), Piece::Pawn, sq(File::E, Rank::R4)),
        push(None, Piece::Pawn, sq(File::E, Rank::R5)),
        push(Some(2), Piece::King, sq(File::E, Rank::R2)),
        GameMove {
            number: None,
            move_: Move::CastleKingside,
        },
        GameMove {
            number: Some(3),
            move_: Move::CastleKingside,
        },
    ];
    let result = board.add_pgn_moves(&moves);
    assert_eq!(
        result,
        Err(ChessError::IlegalMove {
            index: 4,
            game_move: moves[4],
            reason: MoveError::MissingPiece(sq(File::E, Rank::R1)),
        })
    );
    assert_eq!(board.position_count(), 4);
}

#[test]
fn unreachable_destination_is_unresolved() {
    let mut board = Board::new();
    let moves = vec![
        push(Some(1), Piece::Pawn, sq(File::E, Rank::R4)),
        push(None, Piece::Knight, sq(File::D, Rank::R5)),
        push(Some(2), Piece::Pawn, sq(File::D, Rank::R4)),
    ];
    let result = board.add_pgn_moves(&moves);
    assert_eq!(
        result,
        Err(ChessError::IlegalMove {
            index: 1,
            game_move: moves[1],
            reason: MoveError::UnresolvedOrigin,
        })
    );
    // The first move stays applied, the third is never tried.
    assert_eq!(board.position_count(), 1);
    assert!(board
        .get_piece_data_at_square(&sq(File::E, Rank::R4))
        .is_some());
    assert!(board
        .get_piece_data_at_square(&sq(File::D, Rank::R4))
        .is_none());
}

#[test]
fn unknown_rank_origin_is_unresolved() {
    let mut board = Board::new();
    let moves = vec![basic(
        Some(1),
        Piece::Rook,
        sq(File::A, Rank::R3),
        PartialSquare::new(None, Some(Rank::R4)),
        false,
        None,
    )];
    assert_eq!(
        board.add_pgn_moves(&moves),
        Err(ChessError::IlegalMove {
            index: 0,
            game_move: moves[0],
            reason: MoveError::UnresolvedOrigin,
        })
    );
}

#[test]
fn known_origin_without_a_piece_fails_and_keeps_the_board() {
    let mut board = Board::new();
    // The destination holds a black pawn, which is captured first and put back on failure.
    let moves = vec![basic(
        Some(1),
        Piece::Pawn,
        sq(File::D, Rank::R7),
        PartialSquare::new(Some(File::D), Some(Rank::R5)),
        true,
        None,
    )];
    assert_eq!(
        board.add_pgn_moves(&moves),
        Err(ChessError::IlegalMove {
            index: 0,
            game_move: moves[0],
            reason: MoveError::MissingPiece(sq(File::D, Rank::R5)),
        })
    );
    let pawn = board
        .get_piece_data_at_square(&sq(File::D, Rank::R7))
        .expect("missing piece");
    assert_eq!(pawn.piece, UniquePiece::DPawn);
    assert_eq!(pawn.square_hist.len(), 1);
    assert_eq!(board.position_count(), 0);
}

#[test]
fn promotion_to_king_is_refused() {
    let mut board = Board::new();
    let moves = vec![basic(
        Some(1),
        Piece::Pawn,
        sq(File::E, Rank::R4),
        unknown(),
        false,
        Some(Piece::King),
    )];
    assert_eq!(
        board.add_pgn_moves(&moves),
        Err(ChessError::IlegalMove {
            index: 0,
            game_move: moves[0],
            reason: MoveError::InvalidPromotion(Piece::King),
        })
    );
    assert!(board
        .get_piece_data_at_square(&sq(File::E, Rank::R2))
        .is_some());
}

#[test]
fn known_origin_moves_the_piece_there() {
    let mut board = Board::new();
    let m = basic(
        Some(1),
        Piece::Knight,
        sq(File::F, Rank::R3),
        PartialSquare::new(Some(File::G), Some(Rank::R1)),
        false,
        None,
    );
    assert_eq!(board.add_move(&m), Ok(()));
    let knight = board
        .get_piece_data_at_square(&sq(File::F, Rank::R3))
        .expect("missing piece");
    assert_eq!(knight.piece, UniquePiece::KKnight);
    assert!(knight.has_moved());
}

#[test]
fn rank_origin_picks_the_piece_on_that_rank() {
    let mut board = Board::new();
    // Clear the a-file for the white rook, then R1a3 style with a rank-only origin.
    let pawn = board
        .get_mut_piece_data_at_square(&sq(File::A, Rank::R2))
        .expect("missing piece");
    pawn.capture();
    let m = basic(
        Some(1),
        Piece::Rook,
        sq(File::A, Rank::R3),
        PartialSquare::new(None, Some(Rank::R1)),
        false,
        None,
    );
    assert_eq!(board.add_move(&m), Ok(()));
    let rook = board
        .get_piece_data_at_square(&sq(File::A, Rank::R3))
        .expect("missing piece");
    assert_eq!(rook.piece, UniquePiece::QRook);
}

#[test]
fn captured_piece_has_no_valid_squares() {
    let mut board = Board::new();
    let pawn = board
        .get_mut_piece_data_at_square(&sq(File::B, Rank::R2))
        .expect("missing piece");
    pawn.capture();
    assert!(board
        .get_valid_squares_for_piece(UniquePiece::BPawn, true)
        .is_empty());
    assert!(board
        .legal_moves_from_square(&sq(File::B, Rank::R2))
        .is_empty());
}
