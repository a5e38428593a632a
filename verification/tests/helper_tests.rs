use chess_core::helper::{
    decode_square, encode_pos, encode_square, position_free, position_mask, position_occupied,
    position_valid,
};

#[test]
fn square_codecs_round_trip() {
    assert_eq!(decode_square(0), (0, 0));
    assert_eq!(decode_square(63), (7, 7));
    assert_eq!(decode_square(10), (1, 2));
    assert_eq!(encode_square(0, 0), 0);
    assert_eq!(encode_square(7, 7), 63);
    assert_eq!(encode_square(1, 2), 10);
    for sq in 0..64u64 {
        let (row, col) = decode_square(sq);
        assert_eq!(encode_square(row, col), sq);
    }
}

#[test]
fn position_mask_bits() {
    assert_eq!(position_mask(0, 0), 1);
    assert_eq!(position_mask(7, 7), 1 << 63);
    assert_eq!(position_mask(1, 2), 1 << 10);
    assert_eq!(position_mask(-1, 0), 0);
    assert_eq!(position_mask(0, 8), 0);
    assert_eq!(position_mask(8, 0), 0);
}

#[test]
fn position_validity_bounds() {
    assert!(position_valid(0, 0));
    assert!(position_valid(7, 7));
    assert!(!position_valid(-1, 3));
    assert!(!position_valid(3, -1));
    assert!(!position_valid(8, 3));
    assert!(!position_valid(3, 8));
}

#[test]
fn occupancy_mask_queries() {
    let occupancy = position_mask(2, 3) | position_mask(0, 0);
    assert!(position_occupied(occupancy, 2, 3));
    assert!(position_occupied(occupancy, 0, 0));
    assert!(position_free(occupancy, 2, 4));
    assert!(!position_free(occupancy, 2, 3));
    assert!(!position_occupied(occupancy, 7, 7));
}

#[test]
fn encode_pos_algebraic() {
    assert_eq!(encode_pos("A1"), 0);
    assert_eq!(encode_pos("H8"), 63);
    assert_eq!(encode_pos("E2"), 12);
    assert_eq!(encode_pos("D4"), 27);
    // Trailing characters are ignored.
    assert_eq!(encode_pos("B3 and more"), 17);
}
