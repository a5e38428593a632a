use chess_core::board::{Board, Color, Direction, Move, Piece, Position, Type};
use chess_core::movegen::{
    all_moves, bishop_moves, black_pawn_moves, is_valid_move, king_moves, knight_moves, pawn_moves,
    queen_moves, rook_moves, shoot_ray, white_pawn_moves,
};

fn piece(kind: Type, color: Color) -> Piece {
    Piece { kind, color }
}

fn has_move(moves: &[Move], from: (i64, i64), to: (i64, i64)) -> bool {
    moves.iter().any(|m| {
        m.from.file == from.0 && m.from.rank == from.1 && m.to.file == to.0 && m.to.rank == to.1
    })
}

#[test]
fn ray_stops_at_first_occupied_square() {
    let mut b = Board::empty();
    b.set(0, 0, Some(piece(Type::Rook, Color::White)));
    // An enemy piece three squares to the right is included; nothing past it.
    b.set(3, 0, Some(piece(Type::Pawn, Color::Black)));
    let right = shoot_ray(&Position::new(0, 0), Direction(1, 0), &b, Color::White);
    assert_eq!(right.len(), 3);
    assert!(has_move(&right, (0, 0), (1, 0)));
    assert!(has_move(&right, (0, 0), (2, 0)));
    assert!(has_move(&right, (0, 0), (3, 0)));
    assert!(!has_move(&right, (0, 0), (4, 0)));

    // An own piece three squares up is excluded; the ray still stops there.
    b.set(0, 3, Some(piece(Type::Pawn, Color::White)));
    let up = shoot_ray(&Position::new(0, 0), Direction(0, 1), &b, Color::White);
    assert_eq!(up.len(), 2);
    assert!(has_move(&up, (0, 0), (0, 1)));
    assert!(has_move(&up, (0, 0), (0, 2)));
    assert!(!has_move(&up, (0, 0), (0, 3)));
    assert!(!has_move(&up, (0, 0), (0, 4)));

    // An empty ray runs to the board edge.
    let empty_board = Board::empty();
    let diag = shoot_ray(&Position::new(0, 0), Direction(1, 1), &empty_board, Color::White);
    assert_eq!(diag.len(), 7);
    assert!(has_move(&diag, (0, 0), (7, 7)));
}

#[test]
fn rook_moves_cover_rank_and_file() {
    let b = {
        let mut b = Board::empty();
        b.set(3, 3, Some(piece(Type::Rook, Color::White)));
        b
    };
    let moves = rook_moves(&Position::new(3, 3), &b, Color::White);
    assert_eq!(moves.len(), 14);
    assert!(has_move(&moves, (3, 3), (3, 0)));
    assert!(has_move(&moves, (3, 3), (3, 7)));
    assert!(has_move(&moves, (3, 3), (0, 3)));
    assert!(has_move(&moves, (3, 3), (7, 3)));
    assert!(!has_move(&moves, (3, 3), (4, 4)));
}

#[test]
fn bishop_moves_cover_diagonals() {
    let mut b = Board::empty();
    b.set(3, 3, Some(piece(Type::Bishop, Color::Black)));
    let moves = bishop_moves(&Position::new(3, 3), &b, Color::Black);
    assert_eq!(moves.len(), 13);
    assert!(has_move(&moves, (3, 3), (0, 0)));
    assert!(has_move(&moves, (3, 3), (7, 7)));
    assert!(has_move(&moves, (3, 3), (0, 6)));
    assert!(has_move(&moves, (3, 3), (6, 0)));
    assert!(!has_move(&moves, (3, 3), (3, 4)));
}

#[test]
fn queen_moves_are_rook_plus_bishop() {
    let mut b = Board::empty();
    b.set(3, 3, Some(piece(Type::Queen, Color::White)));
    let q = queen_moves(&Position::new(3, 3), &b, Color::White);
    let r = rook_moves(&Position::new(3, 3), &b, Color::White);
    let bi = bishop_moves(&Position::new(3, 3), &b, Color::White);
    assert_eq!(q.len(), r.len() + bi.len());
    assert_eq!(q.len(), 27);
    for m in r.iter().chain(bi.iter()) {
        assert!(has_move(&q, (m.from.file, m.from.rank), (m.to.file, m.to.rank)));
    }
}

#[test]
fn knight_moves_from_center_and_corner() {
    let mut b = Board::empty();
    b.set(3, 3, Some(piece(Type::Knight, Color::White)));
    let center = knight_moves(&Position::new(3, 3), &b, Color::White);
    assert_eq!(center.len(), 8);

    let mut c = Board::empty();
    c.set(0, 0, Some(piece(Type::Knight, Color::White)));
    let corner = knight_moves(&Position::new(0, 0), &c, Color::White);
    assert_eq!(corner.len(), 2);
    assert!(has_move(&corner, (0, 0), (2, 1)));
    assert!(has_move(&corner, (0, 0), (1, 2)));
}

#[test]
fn knight_filters_own_pieces_keeps_captures() {
    let mut b = Board::empty();
    b.set(3, 3, Some(piece(Type::Knight, Color::White)));
    b.set(5, 4, Some(piece(Type::Pawn, Color::White)));
    b.set(5, 2, Some(piece(Type::Pawn, Color::Black)));
    let moves = knight_moves(&Position::new(3, 3), &b, Color::White);
    assert_eq!(moves.len(), 7);
    assert!(!has_move(&moves, (3, 3), (5, 4)));
    assert!(has_move(&moves, (3, 3), (5, 2)));
}

#[test]
fn king_moves_exclude_own_occupied() {
    let mut b = Board::empty();
    b.set(4, 4, Some(piece(Type::King, Color::Black)));
    b.set(4, 5, Some(piece(Type::Pawn, Color::Black)));
    b.set(3, 3, Some(piece(Type::Pawn, Color::White)));
    let moves = king_moves(&Position::new(4, 4), &b, Color::Black);
    assert_eq!(moves.len(), 7);
    assert!(!has_move(&moves, (4, 4), (4, 5)));
    assert!(has_move(&moves, (4, 4), (3, 3)));

    let mut c = Board::empty();
    c.set(0, 0, Some(piece(Type::King, Color::White)));
    assert_eq!(king_moves(&Position::new(0, 0), &c, Color::White).len(), 3);
}

#[test]
fn is_valid_move_rejects_only_own_color() {
    let mut b = Board::empty();
    b.set(2, 2, Some(piece(Type::Pawn, Color::White)));
    assert!(!is_valid_move(&Position::new(2, 2), &b, Color::White));
    assert!(is_valid_move(&Position::new(2, 2), &b, Color::Black));
    assert!(is_valid_move(&Position::new(5, 5), &b, Color::White));
}

#[test]
fn white_pawn_forward_moves() {
    let b = {
        let mut b = Board::empty();
        b.set(0, 1, Some(piece(Type::Pawn, Color::White)));
        b
    };
    // From the home rank: one step and two steps.
    let moves = white_pawn_moves(&Position::new(0, 1), &b);
    assert_eq!(moves.len(), 2);
    assert!(has_move(&moves, (0, 1), (0, 2)));
    assert!(has_move(&moves, (0, 1), (0, 3)));

    // Not from the home rank: one step only.
    let mut c = Board::empty();
    c.set(0, 4, Some(piece(Type::Pawn, Color::White)));
    let higher = white_pawn_moves(&Position::new(0, 4), &c);
    assert_eq!(higher.len(), 1);
    assert!(has_move(&higher, (0, 4), (0, 5)));
}

#[test]
fn white_pawn_blocked_forward() {
    // A blocked one-step square also forbids the two-step move.
    let mut b = Board::empty();
    b.set(0, 1, Some(piece(Type::Pawn, Color::White)));
    b.set(0, 2, Some(piece(Type::Knight, Color::Black)));
    assert_eq!(white_pawn_moves(&Position::new(0, 1), &b).len(), 0);

    // A blocked two-step square still allows the single step.
    let mut c = Board::empty();
    c.set(0, 1, Some(piece(Type::Pawn, Color::White)));
    c.set(0, 3, Some(piece(Type::Knight, Color::Black)));
    let moves = white_pawn_moves(&Position::new(0, 1), &c);
    assert_eq!(moves.len(), 1);
    assert!(has_move(&moves, (0, 1), (0, 2)));
}

#[test]
fn white_pawn_diagonal_captures() {
    let mut b = Board::empty();
    b.set(3, 3, Some(piece(Type::Pawn, Color::White)));
    b.set(2, 4, Some(piece(Type::Rook, Color::Black)));
    b.set(4, 4, Some(piece(Type::Rook, Color::White)));
    b.set(3, 4, Some(piece(Type::Rook, Color::Black)));
    let moves = white_pawn_moves(&Position::new(3, 3), &b);
    // Forward blocked; left capture allowed; right is an own piece.
    assert_eq!(moves.len(), 1);
    assert!(has_move(&moves, (3, 3), (2, 4)));
}

#[test]
fn white_pawn_en_passant_target_is_capturable() {
    let mut b = Board::empty();
    b.set(4, 4, Some(piece(Type::Pawn, Color::White)));
    b.set(3, 6, Some(piece(Type::Pawn, Color::Black)));
    b.make_move(&Move::normal(&Position::new(3, 6), &Position::new(3, 4)));
    assert_eq!(b.en_passant_black, Some(Position::new(3, 5)));
    // The target square D6 is empty, yet the pawn may move onto it.
    assert_eq!(*b.get(3, 5), None);
    let moves = white_pawn_moves(&Position::new(4, 4), &b);
    assert!(has_move(&moves, (4, 4), (3, 5)));
    assert!(has_move(&moves, (4, 4), (4, 5)));
    assert_eq!(moves.len(), 2);
}

#[test]
fn black_pawn_forward_and_captures() {
    let mut b = Board::empty();
    b.set(4, 6, Some(piece(Type::Pawn, Color::Black)));
    let moves = black_pawn_moves(&Position::new(4, 6), &b);
    assert_eq!(moves.len(), 2);
    assert!(has_move(&moves, (4, 6), (4, 5)));
    assert!(has_move(&moves, (4, 6), (4, 4)));

    let mut c = Board::empty();
    c.set(4, 4, Some(piece(Type::Pawn, Color::Black)));
    c.set(3, 3, Some(piece(Type::Queen, Color::White)));
    c.set(5, 3, Some(piece(Type::Queen, Color::Black)));
    let caps = black_pawn_moves(&Position::new(4, 4), &c);
    assert_eq!(caps.len(), 2);
    assert!(has_move(&caps, (4, 4), (4, 3)));
    assert!(has_move(&caps, (4, 4), (3, 3)));
    assert!(!has_move(&caps, (4, 4), (5, 3)));
}

#[test]
fn black_pawn_en_passant_target_is_capturable() {
    let mut b = Board::empty();
    b.set(4, 1, Some(piece(Type::Pawn, Color::White)));
    b.set(5, 3, Some(piece(Type::Pawn, Color::Black)));
    b.make_move(&Move::normal(&Position::new(4, 1), &Position::new(4, 3)));
    assert_eq!(b.en_passant_white, Some(Position::new(4, 2)));
    let moves = black_pawn_moves(&Position::new(5, 3), &b);
    assert!(has_move(&moves, (5, 3), (4, 2)));
}

#[test]
fn pawn_moves_dispatches_by_color() {
    let mut b = Board::empty();
    b.set(2, 1, Some(piece(Type::Pawn, Color::White)));
    b.set(5, 6, Some(piece(Type::Pawn, Color::Black)));
    let w = pawn_moves(&Position::new(2, 1), &b, Color::White);
    let bl = pawn_moves(&Position::new(5, 6), &b, Color::Black);
    assert!(has_move(&w, (2, 1), (2, 2)));
    assert!(has_move(&bl, (5, 6), (5, 5)));
}

#[test]
fn all_moves_from_starting_position() {
    let b = Board::starting_position();
    let white = all_moves(&b, Color::White);
    // 16 pawn moves plus 4 knight moves, nothing else can move.
    assert_eq!(white.len(), 20);
    let black = all_moves(&b, Color::Black);
    assert_eq!(black.len(), 20);
    assert!(has_move(&white, (4, 1), (4, 3)));
    assert!(has_move(&white, (1, 0), (2, 2)));
    assert!(!has_move(&white, (0, 0), (0, 1)));
}

#[test]
fn all_moves_picks_only_given_color() {
    let mut b = Board::empty();
    b.set(0, 0, Some(piece(Type::Rook, Color::White)));
    b.set(7, 7, Some(piece(Type::Rook, Color::Black)));
    let white = all_moves(&b, Color::White);
    let black = all_moves(&b, Color::Black);
    assert_eq!(white.len(), 14);
    assert_eq!(black.len(), 14);
    assert!(white.iter().all(|m| m.from.file == 0 && m.from.rank == 0));
    assert!(black.iter().all(|m| m.from.file == 7 && m.from.rank == 7));
}
