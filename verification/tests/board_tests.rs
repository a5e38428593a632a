use chess_core::board::{Board, Color, Move, Piece, Position, Type};

fn piece(kind: Type, color: Color) -> Piece {
    Piece { kind, color }
}

#[test]
fn position_validity() {
    for file in 0..8 {
        for rank in 0..8 {
            assert!(Position::new(file, rank).is_valid());
        }
    }
    assert!(!Position::new(-1, 0).is_valid());
    assert!(!Position::new(0, -1).is_valid());
    assert!(!Position::new(8, 0).is_valid());
    assert!(!Position::new(0, 8).is_valid());
    assert!(!Position::new(-3, 11).is_valid());
}

#[test]
fn empty_board_is_empty() {
    let b = Board::empty();
    for col in 0..8 {
        for row in 0..8 {
            assert_eq!(*b.get(col, row), None);
        }
    }
    assert_eq!(b.turn, Color::White);
    assert_eq!(b.en_passant_white, None);
    assert_eq!(b.en_passant_black, None);
}

#[test]
fn starting_fen_round_trip() {
    // Reading back every square of the parsed starting FEN reproduces the
    // standard 32-piece layout exactly.
    let b = Board::starting_position();
    let back = [Type::Rook, Type::Knight, Type::Bishop, Type::Queen, Type::King, Type::Bishop, Type::Knight, Type::Rook];
    for col in 0..8 {
        assert_eq!(*b.get(col, 0), Some(piece(back[col], Color::White)));
        assert_eq!(*b.get(col, 1), Some(piece(Type::Pawn, Color::White)));
        for row in 2..6 {
            assert_eq!(*b.get(col, row), None);
        }
        assert_eq!(*b.get(col, 6), Some(piece(Type::Pawn, Color::Black)));
        assert_eq!(*b.get(col, 7), Some(piece(back[col], Color::Black)));
    }
    assert_eq!(b.turn, Color::White);
    assert_eq!(b.en_passant_white, None);
    assert_eq!(b.en_passant_black, None);
}

#[test]
fn piece_from_fen_letters() {
    assert_eq!(Piece::from_fen('K'), Some(piece(Type::King, Color::White)));
    assert_eq!(Piece::from_fen('q'), Some(piece(Type::Queen, Color::Black)));
    assert_eq!(Piece::from_fen('N'), Some(piece(Type::Knight, Color::White)));
    assert_eq!(Piece::from_fen('p'), Some(piece(Type::Pawn, Color::Black)));
    assert_eq!(Piece::from_fen('z'), None);
    assert_eq!(Piece::from_fen(' '), None);
    assert_eq!(Piece::from_fen('9'), None);
}

#[test]
fn from_fen_rejects_malformed_placement() {
    // An unknown character is named in the error.
    assert_eq!(Board::from_fen("x").unwrap_err(), 'x');
    // The slash that starts a ninth row.
    assert_eq!(Board::from_fen("8/8/8/8/8/8/8/8/8").unwrap_err(), '/');
    // More than eight files in one row, by digits or by pieces.
    assert_eq!(Board::from_fen("54").unwrap_err(), '4');
    // '0' is not a FEN digit: only 1-8 may skip files.
    assert_eq!(Board::from_fen("0").unwrap_err(), '0');
    assert_eq!(
        Board::from_fen("r0nbqkbnr/pppppppp/8/8/8/8/PPPPPPPP/RNBQKBNR").unwrap_err(),
        '0'
    );
    assert_eq!(Board::from_fen("ppppppppp").unwrap_err(), 'p');
    // Malformed text after the first space is never consumed.
    assert!(Board::from_fen("8 ???").is_ok());
}

#[test]
fn from_fen_places_single_piece() {
    // One white rook on A8 (top-left of the placement text).
    let b = Board::from_fen("R7/8/8/8/8/8/8/8").expect("placement parses");
    assert_eq!(*b.get(0, 7), Some(piece(Type::Rook, Color::White)));
    for col in 0..8 {
        for row in 0..8 {
            if (col, row) != (0, 7) {
                assert_eq!(*b.get(col, row), None);
            }
        }
    }
}

#[test]
fn make_move_relocates_and_flips_turn() {
    let mut b = Board::empty();
    b.set(4, 0, Some(piece(Type::King, Color::White)));
    assert_eq!(b.turn, Color::White);
    b.make_move(&Move::normal(&Position::new(4, 0), &Position::new(4, 1)));
    assert_eq!(*b.get(4, 0), None);
    assert_eq!(*b.get(4, 1), Some(piece(Type::King, Color::White)));
    assert_eq!(b.turn, Color::Black);
    assert_eq!(b.en_passant_white, None);
    assert_eq!(b.en_passant_black, None);
}

#[test]
fn make_move_captures_occupant() {
    let mut b = Board::empty();
    b.set(0, 0, Some(piece(Type::Rook, Color::White)));
    b.set(0, 5, Some(piece(Type::Pawn, Color::Black)));
    b.make_move(&Move::normal(&Position::new(0, 0), &Position::new(0, 5)));
    assert_eq!(*b.get(0, 5), Some(piece(Type::Rook, Color::White)));
    assert_eq!(*b.get(0, 0), None);
}

#[test]
fn double_step_sets_en_passant_then_reply_clears_it() {
    let mut b = Board::starting_position();
    // White: a2-a4, a double step from the home rank.
    b.make_move(&Move::normal(&Position::new(0, 1), &Position::new(0, 3)));
    assert_eq!(b.en_passant_white, Some(Position::new(0, 2)));
    assert_eq!(b.en_passant_black, None);
    // Black replies without consuming the target: b8-c6.
    b.make_move(&Move::normal(&Position::new(1, 7), &Position::new(2, 5)));
    assert_eq!(b.en_passant_white, None);
    assert_eq!(b.en_passant_black, None);
}

#[test]
fn black_double_step_sets_en_passant() {
    let mut b = Board::starting_position();
    b.make_move(&Move::normal(&Position::new(4, 1), &Position::new(4, 3)));
    // Black: d7-d5.
    b.make_move(&Move::normal(&Position::new(3, 6), &Position::new(3, 4)));
    assert_eq!(b.en_passant_black, Some(Position::new(3, 5)));
    assert_eq!(b.en_passant_white, None);
}

#[test]
fn single_step_does_not_set_en_passant() {
    let mut b = Board::starting_position();
    b.make_move(&Move::normal(&Position::new(0, 1), &Position::new(0, 2)));
    assert_eq!(b.en_passant_white, None);
}

#[test]
fn en_passant_capture_removes_passed_pawn() {
    let mut b = Board::empty();
    // White pawn on E5, black pawn on D7.
    b.set(4, 4, Some(piece(Type::Pawn, Color::White)));
    b.set(3, 6, Some(piece(Type::Pawn, Color::Black)));
    // Black: d7-d5, passing over D6.
    b.make_move(&Move::normal(&Position::new(3, 6), &Position::new(3, 4)));
    assert_eq!(b.en_passant_black, Some(Position::new(3, 5)));
    // White captures en passant onto D6.
    b.make_move(&Move::normal(&Position::new(4, 4), &Position::new(3, 5)));
    // The black pawn one rank below D6 is gone; D6 holds the white pawn.
    assert_eq!(*b.get(3, 4), None);
    assert_eq!(*b.get(3, 5), Some(piece(Type::Pawn, Color::White)));
    assert_eq!(*b.get(4, 4), None);
    assert_eq!(b.en_passant_black, None);
}

#[test]
fn en_passant_capture_by_black() {
    let mut b = Board::empty();
    b.set(4, 1, Some(piece(Type::Pawn, Color::White)));
    b.set(5, 3, Some(piece(Type::Pawn, Color::Black)));
    // White: e2-e4, passing over E3.
    b.make_move(&Move::normal(&Position::new(4, 1), &Position::new(4, 3)));
    assert_eq!(b.en_passant_white, Some(Position::new(4, 2)));
    // Black captures en passant onto E3.
    b.make_move(&Move::normal(&Position::new(5, 3), &Position::new(4, 2)));
    assert_eq!(*b.get(4, 3), None);
    assert_eq!(*b.get(4, 2), Some(piece(Type::Pawn, Color::Black)));
    assert_eq!(b.en_passant_white, None);
}

#[test]
fn clone_is_independent() {
    // Mutating a clone never changes the original board.
    let original = Board::starting_position();
    let mut copy = original.clone();
    copy.make_move(&Move::normal(&Position::new(4, 1), &Position::new(4, 3)));
    assert_eq!(*copy.get(4, 1), None);
    assert_eq!(*original.get(4, 1), Some(piece(Type::Pawn, Color::White)));
    assert_eq!(original.turn, Color::White);
    assert_eq!(copy.turn, Color::Black);
    for col in 0..8 {
        for row in 0..8 {
            let expected = Board::starting_position();
            assert_eq!(*original.get(col, row), *expected.get(col, row));
        }
    }
}

#[test]
fn occupancy_matches_piece_array() {
    let b = Board::starting_position();
    let mask = b.occupancy();
    for i in 0..64u64 {
        let occupied = (mask >> i) & 1 == 1;
        let row = (i / 8) as usize;
        let col = (i % 8) as usize;
        assert_eq!(occupied, b.get(col, row).is_some());
    }
    assert_eq!(Board::empty().occupancy(), 0);
    assert_eq!(mask, 0xffff_0000_0000_ffff);
}

#[test]
fn get_pos_and_set_pos_agree_with_get_set() {
    let mut b = Board::empty();
    let p = Position::new(6, 2);
    b.set_pos(&p, Some(piece(Type::Queen, Color::Black)));
    assert_eq!(*b.get(6, 2), Some(piece(Type::Queen, Color::Black)));
    assert_eq!(*b.get_pos(&p), Some(piece(Type::Queen, Color::Black)));
    b.set(6, 2, None);
    assert_eq!(*b.get_pos(&p), None);
}

#[test]
fn move_normal_copies_endpoints() {
    let from = Position::new(1, 2);
    let to = Position::new(3, 4);
    let m = Move::normal(&from, &to);
    assert_eq!(m.from, from);
    assert_eq!(m.to, to);
    assert_eq!(m.promotion, None);
}

#[test]
fn piece_new_keeps_kind_and_color() {
    let p = Piece::new(Type::Bishop, Color::Black);
    assert_eq!(p.kind, Type::Bishop);
    assert_eq!(p.color, Color::Black);
}
