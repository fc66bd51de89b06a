use chess_rules::game::find_on;
use chess_rules::{
    apply_move, default_pieces, select_piece, Game, MoveError, Piece, PieceType, PlayError,
    SelectError,
};

fn white(piece_type: PieceType, file: u8, rank: u8) -> Piece {
    Piece { team_white: true, piece_type, position: (file, rank) }
}

fn black(piece_type: PieceType, file: u8, rank: u8) -> Piece {
    Piece { team_white: false, piece_type, position: (file, rank) }
}

fn no_square_is_shared(pieces: &[Piece]) -> bool {
    pieces.iter().enumerate().all(|(i, p)| pieces[i + 1..].iter().all(|q| q.position != p.position))
}

#[test]
fn white_queen_captures_a_black_piece() {
    let queen = white(PieceType::Queen, 3, 7);
    let board = vec![white(PieceType::King, 4, 7), queen, black(PieceType::Pawn, 3, 4), black(PieceType::King, 4, 0)];
    let outcome = apply_move(&queen, (3, 4), &board).unwrap();
    assert_eq!(outcome.captured, Some(black(PieceType::Pawn, 3, 4)));
    assert_eq!(
        outcome.pieces,
        vec![white(PieceType::King, 4, 7), black(PieceType::King, 4, 0), white(PieceType::Queen, 3, 4)]
    );
    assert!(no_square_is_shared(&outcome.pieces));
}

#[test]
fn quiet_move_keeps_every_other_piece() {
    let board = default_pieces();
    let pawn = white(PieceType::Pawn, 4, 6);
    let outcome = apply_move(&pawn, (4, 4), &board).unwrap();
    assert_eq!(outcome.captured, None);
    assert_eq!(outcome.pieces.len(), 32);
    let mut expected = default_pieces();
    expected.remove(4);
    expected.push(white(PieceType::Pawn, 4, 4));
    assert_eq!(outcome.pieces, expected);
    assert!(no_square_is_shared(&outcome.pieces));
}

#[test]
fn illegal_move_is_refused_and_the_board_is_left_alone() {
    let board = default_pieces();
    let pawn = white(PieceType::Pawn, 4, 6);
    let result = apply_move(&pawn, (4, 3), &board);
    assert_eq!(result.err(), Some(MoveError::IllegalMove));
    assert_eq!(board, default_pieces());
    let rook = white(PieceType::Rook, 0, 7);
    assert_eq!(apply_move(&rook, (0, 5), &board).err(), Some(MoveError::IllegalMove));
    assert_eq!(apply_move(&rook, (0, 6), &board).err(), Some(MoveError::IllegalMove));
}

#[test]
fn capture_removes_exactly_the_enemy_on_the_target() {
    let rook = black(PieceType::Rook, 0, 0);
    let board = vec![
        white(PieceType::Pawn, 0, 3),
        white(PieceType::Pawn, 1, 3),
        rook,
        black(PieceType::Pawn, 1, 0),
        white(PieceType::Knight, 0, 5),
    ];
    let outcome = apply_move(&rook, (0, 3), &board).unwrap();
    assert_eq!(outcome.captured, Some(white(PieceType::Pawn, 0, 3)));
    assert_eq!(
        outcome.pieces,
        vec![
            white(PieceType::Pawn, 1, 3),
            black(PieceType::Pawn, 1, 0),
            white(PieceType::Knight, 0, 5),
            black(PieceType::Rook, 0, 3)
        ]
    );
    assert_eq!(outcome.pieces.len(), board.len() - 1);
    assert!(no_square_is_shared(&outcome.pieces));
}

#[test]
fn first_piece_on_a_square_is_found() {
    let board = default_pieces();
    assert_eq!(find_on(&board, (0, 6)), Some(0));
    assert_eq!(find_on(&board, (4, 0)), Some(31));
    assert_eq!(find_on(&board, (4, 4)), None);
    let doubled = vec![white(PieceType::Pawn, 1, 1), black(PieceType::Pawn, 2, 2), white(PieceType::Rook, 2, 2)];
    assert_eq!(find_on(&doubled, (2, 2)), Some(1));
}

#[test]
fn selection_asks_for_a_piece_of_the_player_to_move() {
    let board = default_pieces();
    assert_eq!(select_piece(&board, (4, 6), true), Ok(4));
    assert_eq!(select_piece(&board, (4, 6), false), Err(SelectError::NotYourTurn));
    assert_eq!(select_piece(&board, (4, 1), false), Ok(12));
    assert_eq!(select_piece(&board, (4, 1), true), Err(SelectError::NotYourTurn));
    assert_eq!(select_piece(&board, (4, 4), true), Err(SelectError::NoPiece));
    assert_eq!(select_piece(&board, (4, 4), false), Err(SelectError::NoPiece));
}

#[test]
fn new_game_starts_with_white_to_move() {
    let game = Game::new();
    assert_eq!(game.pieces, default_pieces());
    assert!(game.fallen.is_empty());
    assert!(game.white_to_move);
}

#[test]
fn play_refuses_and_leaves_the_game_unchanged() {
    let mut game = Game::new();
    assert_eq!(game.play((4, 4), (4, 3)), Err(PlayError::Select(SelectError::NoPiece)));
    assert_eq!(game.play((4, 1), (4, 2)), Err(PlayError::Select(SelectError::NotYourTurn)));
    assert_eq!(game.play((4, 6), (4, 3)), Err(PlayError::Move(MoveError::IllegalMove)));
    assert_eq!(game.pieces, default_pieces());
    assert!(game.fallen.is_empty());
    assert!(game.white_to_move);
}

#[test]
fn play_moves_captures_and_passes_the_turn() {
    let mut game = Game::new();
    assert_eq!(game.play((4, 6), (4, 4)), Ok(None));
    assert!(!game.white_to_move);
    assert_eq!(game.play((4, 4), (4, 3)), Err(PlayError::Select(SelectError::NotYourTurn)));
    assert_eq!(game.play((3, 1), (3, 3)), Ok(None));
    assert!(game.white_to_move);
    assert_eq!(game.play((4, 4), (3, 3)), Ok(Some(black(PieceType::Pawn, 3, 3))));
    assert_eq!(game.fallen, vec![black(PieceType::Pawn, 3, 3)]);
    assert_eq!(game.pieces.len(), 31);
    assert!(!game.white_to_move);
    assert_eq!(game.play((3, 0), (3, 3)), Ok(Some(white(PieceType::Pawn, 3, 3))));
    assert_eq!(game.fallen, vec![black(PieceType::Pawn, 3, 3), white(PieceType::Pawn, 3, 3)]);
    assert_eq!(game.pieces.len(), 30);
    assert_eq!(game.pieces[29], black(PieceType::Queen, 3, 3));
    assert!(game.white_to_move);
    assert!(no_square_is_shared(&game.pieces));
}
