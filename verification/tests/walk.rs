use chess_rules::evaluate::{is_attacked, is_legal};
use chess_rules::{Piece, PieceType};

const KINDS: [PieceType; 6] = [
    PieceType::Pawn,
    PieceType::Rook,
    PieceType::Knight,
    PieceType::Bishop,
    PieceType::Queen,
    PieceType::King,
];

/// A small generator of numbers, the same on every run.
struct Numbers(u64);

impl Numbers {
    fn next(&mut self, below: u64) -> u64 {
        self.0 = self.0.wrapping_mul(6364136223846793005).wrapping_add(1442695040888963407);
        (self.0 >> 33) % below
    }
}

/// A board as a grid: what stands on each square.
type Grid = [[Option<Piece>; 8]; 8];

fn sample_board(numbers: &mut Numbers) -> (Vec<Piece>, Grid) {
    let mut grid: Grid = [[None; 8]; 8];
    let mut pieces = Vec::new();
    let count = numbers.next(14);
    for _ in 0..count {
        let file = numbers.next(8) as u8;
        let rank = numbers.next(8) as u8;
        if grid[file as usize][rank as usize].is_some() {
            continue;
        }
        let p = Piece {
            team_white: numbers.next(2) == 0,
            piece_type: KINDS[numbers.next(6) as usize],
            position: (file, rank),
        };
        grid[file as usize][rank as usize] = Some(p);
        pieces.push(p);
    }
    (pieces, grid)
}

fn on_board(file: i32, rank: i32) -> bool {
    (0..8).contains(&file) && (0..8).contains(&rank)
}

/// Squares that a piece reaches by walking from its square in the given
/// directions until it meets a piece; an enemy's square is reached too.
fn walk(grid: &Grid, p: &Piece, directions: &[(i32, i32)], far: bool) -> Vec<(u8, u8)> {
    let mut reached = Vec::new();
    for (df, dr) in directions {
        let mut file = p.position.0 as i32 + df;
        let mut rank = p.position.1 as i32 + dr;
        while on_board(file, rank) {
            match grid[file as usize][rank as usize] {
                None => reached.push((file as u8, rank as u8)),
                Some(q) => {
                    if q.team_white != p.team_white {
                        reached.push((file as u8, rank as u8));
                    }
                    break;
                }
            }
            if !far {
                break;
            }
            file += df;
            rank += dr;
        }
    }
    reached
}

const STRAIGHT: [(i32, i32); 4] = [(0, 1), (0, -1), (1, 0), (-1, 0)];
const SLANTED: [(i32, i32); 4] = [(1, 1), (1, -1), (-1, 1), (-1, -1)];
const JUMPS: [(i32, i32); 8] =
    [(1, 2), (2, 1), (-1, 2), (-2, 1), (1, -2), (2, -1), (-1, -2), (-2, -1)];

fn reach(grid: &Grid, p: &Piece) -> Vec<(u8, u8)> {
    match p.piece_type {
        PieceType::Rook => walk(grid, p, &STRAIGHT, true),
        PieceType::Bishop => walk(grid, p, &SLANTED, true),
        PieceType::Queen => {
            let mut all = walk(grid, p, &STRAIGHT, true);
            all.extend(walk(grid, p, &SLANTED, true));
            all
        }
        PieceType::Knight => walk(grid, p, &JUMPS, false),
        _ => Vec::new(),
    }
}

#[test]
fn rook_bishop_queen_and_knight_reach_what_a_walk_over_the_squares_reaches() {
    let mut numbers = Numbers(11);
    let mut moves = 0;
    for _ in 0..400 {
        let (pieces, grid) = sample_board(&mut numbers);
        for p in &pieces {
            if matches!(p.piece_type, PieceType::Pawn | PieceType::King) {
                continue;
            }
            let reached = reach(&grid, p);
            for file in 0..8u8 {
                for rank in 0..8u8 {
                    let expected = reached.contains(&(file, rank));
                    assert_eq!(is_legal(p, (file, rank), &pieces), expected);
                    if expected {
                        moves += 1;
                    }
                }
            }
        }
    }
    assert!(moves > 1000);
}

#[test]
fn pawn_reaches_what_the_grid_allows() {
    let mut numbers = Numbers(12);
    let mut moves = 0;
    for _ in 0..800 {
        let (pieces, grid) = sample_board(&mut numbers);
        for p in &pieces {
            if p.piece_type != PieceType::Pawn {
                continue;
            }
            let step: i32 = if p.team_white { -1 } else { 1 };
            let start: i32 = if p.team_white { 6 } else { 1 };
            let file = p.position.0 as i32;
            let rank = p.position.1 as i32;
            let empty = |f: i32, r: i32| on_board(f, r) && grid[f as usize][r as usize].is_none();
            let enemy = |f: i32, r: i32| {
                on_board(f, r)
                    && matches!(grid[f as usize][r as usize], Some(q) if q.team_white != p.team_white)
            };
            for tf in 0..8i32 {
                for tr in 0..8i32 {
                    let one = tf == file && tr == rank + step && empty(tf, tr);
                    let two = tf == file
                        && tr == rank + 2 * step
                        && rank == start
                        && empty(tf, rank + step)
                        && empty(tf, tr);
                    let take = (tf - file).abs() == 1 && tr == rank + step && enemy(tf, tr);
                    let expected = one || two || take;
                    assert_eq!(is_legal(p, (tf as u8, tr as u8), &pieces), expected);
                    assert_eq!(
                        p.move_conditions((tf as u8, tr as u8), pieces.clone()),
                        vec![one, take, two]
                    );
                    if expected {
                        moves += 1;
                    }
                }
            }
        }
    }
    assert!(moves > 200);
}

/// Tells whether a pawn, rook, knight, bishop or queen of the other team
/// bears on a square that a piece of the given team holds.
fn threatened(grid: &Grid, team_white: bool, file: u8, rank: u8) -> bool {
    for column in grid.iter() {
        for q in column.iter().flatten() {
            if q.team_white == team_white {
                continue;
            }
            let hit = match q.piece_type {
                PieceType::Pawn => {
                    let step: i32 = if q.team_white { -1 } else { 1 };
                    (q.position.0 as i32 - file as i32).abs() == 1
                        && rank as i32 == q.position.1 as i32 + step
                }
                PieceType::King => false,
                _ => reach(grid, q).contains(&(file, rank)),
            };
            if hit {
                return true;
            }
        }
    }
    false
}

#[test]
fn king_steps_where_no_piece_of_the_other_team_would_take_it() {
    let mut numbers = Numbers(13);
    let mut steps = 0;
    let mut refused = 0;
    for _ in 0..1500 {
        let (pieces, grid) = sample_board(&mut numbers);
        for king in &pieces {
            if king.piece_type != PieceType::King {
                continue;
            }
            for file in 0..8u8 {
                for rank in 0..8u8 {
                    let near = file.abs_diff(king.position.0) <= 1
                        && rank.abs_diff(king.position.1) <= 1
                        && (file, rank) != king.position;
                    let held = grid[file as usize][rank as usize];
                    let friend = matches!(held, Some(q) if q.team_white == king.team_white);
                    let taking = matches!(held, Some(q) if q.team_white != king.team_white);
                    let mut after = grid;
                    after[king.position.0 as usize][king.position.1 as usize] = None;
                    let danger = if taking {
                        // the piece that the king takes is still counted on the
                        // square: it keeps the rooks, knights, bishops and queens
                        // of its team off, and only their pawns bear on the king
                        let mut pawns: Grid = [[None; 8]; 8];
                        for q in &pieces {
                            if q.piece_type == PieceType::Pawn && q.position != king.position {
                                pawns[q.position.0 as usize][q.position.1 as usize] = Some(*q);
                            }
                        }
                        threatened(&pawns, king.team_white, file, rank)
                    } else {
                        // the king stands on the target, its old square is empty
                        after[file as usize][rank as usize] = Some(Piece {
                            team_white: king.team_white,
                            piece_type: PieceType::King,
                            position: (file, rank),
                        });
                        threatened(&after, king.team_white, file, rank)
                    };
                    let expected = near && !friend && !danger;
                    assert_eq!(
                        is_legal(king, (file, rank), &pieces),
                        expected,
                        "king {:?} to {:?} on {:?}",
                        king,
                        (file, rank),
                        pieces
                    );
                    if expected {
                        steps += 1;
                    } else if near && !friend {
                        refused += 1;
                    }
                }
            }
        }
    }
    assert!(steps > 500);
    assert!(refused > 200);
}

#[test]
fn attack_on_a_held_square_is_what_a_walk_over_the_squares_finds() {
    let mut numbers = Numbers(14);
    let mut found = 0;
    for _ in 0..600 {
        let (pieces, grid) = sample_board(&mut numbers);
        for p in &pieces {
            let expected = threatened(&grid, p.team_white, p.position.0, p.position.1);
            assert_eq!(is_attacked(&pieces, p.position, !p.team_white), expected);
            if expected {
                found += 1;
            }
        }
    }
    assert!(found > 300);
}
