use chess_rules::board::{is_occupied, is_occupied_by, is_valid_board};
use chess_rules::piece::square_in_bounds;
use chess_rules::{default_pieces, Piece, PieceType};

#[test]
fn initial_layout_has_thirty_two_pieces_in_order() {
    let pieces = default_pieces();
    assert_eq!(pieces.len(), 32);
    for file in 0..8u8 {
        assert_eq!(
            pieces[file as usize],
            Piece { team_white: true, piece_type: PieceType::Pawn, position: (file, 6) }
        );
        assert_eq!(
            pieces[8 + file as usize],
            Piece { team_white: false, piece_type: PieceType::Pawn, position: (file, 1) }
        );
    }
    let officers = [
        (true, PieceType::Rook, (0, 7)),
        (true, PieceType::Rook, (7, 7)),
        (false, PieceType::Rook, (0, 0)),
        (false, PieceType::Rook, (7, 0)),
        (true, PieceType::Knight, (1, 7)),
        (true, PieceType::Knight, (6, 7)),
        (false, PieceType::Knight, (1, 0)),
        (false, PieceType::Knight, (6, 0)),
        (true, PieceType::Bishop, (2, 7)),
        (true, PieceType::Bishop, (5, 7)),
        (false, PieceType::Bishop, (2, 0)),
        (false, PieceType::Bishop, (5, 0)),
        (true, PieceType::Queen, (3, 7)),
        (false, PieceType::Queen, (3, 0)),
        (true, PieceType::King, (4, 7)),
        (false, PieceType::King, (4, 0)),
    ];
    for (i, (team_white, piece_type, position)) in officers.into_iter().enumerate() {
        assert_eq!(pieces[16 + i], Piece { team_white, piece_type, position });
    }
}

#[test]
fn initial_layout_counts_each_kind_for_each_team() {
    let pieces = default_pieces();
    for team_white in [true, false] {
        let count = |kind: PieceType| {
            pieces.iter().filter(|p| p.team_white == team_white && p.piece_type == kind).count()
        };
        assert_eq!(count(PieceType::Pawn), 8);
        assert_eq!(count(PieceType::Rook), 2);
        assert_eq!(count(PieceType::Knight), 2);
        assert_eq!(count(PieceType::Bishop), 2);
        assert_eq!(count(PieceType::Queen), 1);
        assert_eq!(count(PieceType::King), 1);
    }
}

#[test]
fn initial_layout_shares_no_square_and_stays_on_the_board() {
    let pieces = default_pieces();
    for (i, p) in pieces.iter().enumerate() {
        assert!(square_in_bounds(p.position));
        for q in &pieces[i + 1..] {
            assert_ne!(p.position, q.position);
        }
    }
}

#[test]
fn occupancy_of_the_initial_layout() {
    let pieces = default_pieces();
    for file in 0..8u8 {
        for rank in 0..8u8 {
            let taken = rank <= 1 || rank >= 6;
            assert_eq!(is_occupied(&pieces, (file, rank)), taken);
            assert_eq!(is_occupied_by(&pieces, (file, rank), true), rank >= 6);
            assert_eq!(is_occupied_by(&pieces, (file, rank), false), rank <= 1);
        }
    }
    assert!(!is_occupied(&Vec::new(), (0, 0)));
}

#[test]
fn squares_off_the_board_are_out_of_bounds() {
    assert!(square_in_bounds((0, 0)));
    assert!(square_in_bounds((7, 7)));
    assert!(!square_in_bounds((8, 0)));
    assert!(!square_in_bounds((0, 8)));
    assert!(!square_in_bounds((255, 255)));
}

#[test]
fn pieces_compare_by_their_fields() {
    let p = Piece { team_white: true, piece_type: PieceType::Pawn, position: (1, 2) };
    assert_eq!(p, Piece { team_white: true, piece_type: PieceType::Pawn, position: (1, 2) });
    assert_ne!(p, Piece { team_white: false, piece_type: PieceType::Pawn, position: (1, 2) });
    assert_ne!(p, Piece { team_white: true, piece_type: PieceType::Rook, position: (1, 2) });
    assert_ne!(p, Piece { team_white: true, piece_type: PieceType::Pawn, position: (2, 2) });
    assert_ne!(p, Piece { team_white: true, piece_type: PieceType::Pawn, position: (1, 3) });
    assert_eq!(p.relocate((5, 5)), Piece { team_white: true, piece_type: PieceType::Pawn, position: (5, 5) });
}

#[test]
fn valid_boards_share_no_square_and_stay_on_the_board() {
    assert!(is_valid_board(&default_pieces()));
    assert!(is_valid_board(&Vec::new()));
    let p = Piece { team_white: true, piece_type: PieceType::Pawn, position: (1, 2) };
    let q = Piece { team_white: false, piece_type: PieceType::Rook, position: (1, 2) };
    let r = Piece { team_white: false, piece_type: PieceType::Rook, position: (2, 2) };
    assert!(is_valid_board(&vec![p, r]));
    assert!(!is_valid_board(&vec![p, q]));
    assert!(!is_valid_board(&vec![p, r, q]));
    assert!(!is_valid_board(&vec![p, p]));
    let off = Piece { team_white: true, piece_type: PieceType::Pawn, position: (8, 2) };
    assert!(!is_valid_board(&vec![p, off]));
    let low = Piece { team_white: true, piece_type: PieceType::Pawn, position: (2, 8) };
    assert!(!is_valid_board(&vec![low]));
}
