use vstd::prelude::*;

verus! {

/// The (row, col) coordinate of a linear square index.
pub fn decode_square(square: u64) -> (r: (i64, i64))
    requires
        square < 64,
    ensures
        r.0 == square as int / 8,
        r.1 == square as int % 8,
{
    ((square / 8) as i64, (square % 8) as i64)
}

/// The linear square index of a (row, col) coordinate.
pub fn encode_square(row: i64, col: i64) -> (r: u64)
    requires
        0 <= row < 8,
        0 <= col < 8,
    ensures
        r == row * 8 + col,
{
    (row * 8 + col) as u64
}

/// The single-bit mask of the square at (row, col), or 0 off the board.
pub open spec fn position_mask_spec(row: int, col: int) -> u64 {
    if 0 <= row < 8 && 0 <= col < 8 {
        1u64 << ((row * 8 + col) as u64)
    } else {
        0u64
    }
}

pub fn position_mask(row: i64, col: i64) -> (r: u64)
    ensures
        r == position_mask_spec(row as int, col as int),
{
    if row < 0 || col < 0 || row >= 8 || col >= 8 {
        0
    } else {
        1u64 << ((row * 8 + col) as u64)
    }
}

pub fn position_valid(row: i64, col: i64) -> (r: bool)
    ensures
        r == (0 <= row < 8 && 0 <= col < 8),
{
    row >= 0 && col >= 0 && row < 8 && col < 8
}

/// Whether the occupancy mask leaves the square at (row, col) empty.
pub fn position_free(occupancy: u64, row: i64, col: i64) -> (r: bool)
    requires
        0 <= row < 8,
        0 <= col < 8,
    ensures
        r == ((occupancy & position_mask_spec(row as int, col as int)) == 0),
{
    (occupancy & position_mask(row, col)) == 0
}

/// Whether the occupancy mask fills the square at (row, col).
pub fn position_occupied(occupancy: u64, row: i64, col: i64) -> (r: bool)
    requires
        0 <= row < 8,
        0 <= col < 8,
    ensures
        r == ((occupancy & position_mask_spec(row as int, col as int)) != 0),
{
    !position_free(occupancy, row, col)
}

/// The file index denoted by an algebraic file letter 'A'..'H'.
pub open spec fn file_index(c: char) -> Option<u64> {
    match c {
        'A' => Some(0u64),
        'B' => Some(1u64),
        'C' => Some(2u64),
        'D' => Some(3u64),
        'E' => Some(4u64),
        'F' => Some(5u64),
        'G' => Some(6u64),
        'H' => Some(7u64),
        _ => None,
    }
}

/// The rank index denoted by an algebraic rank digit '1'..'8'.
pub open spec fn rank_index(c: char) -> Option<u64> {
    match c {
        '1' => Some(0u64),
        '2' => Some(1u64),
        '3' => Some(2u64),
        '4' => Some(3u64),
        '5' => Some(4u64),
        '6' => Some(5u64),
        '7' => Some(6u64),
        '8' => Some(7u64),
        _ => None,
    }
}

/// Decode algebraic square notation to a linear square index:
/// A1 -> 0, ..., H8 -> 63. Characters after the first two are ignored.
pub fn encode_pos(pos: &str) -> (r: u64)
    requires
        pos@.len() >= 2,
        file_index(pos@[0]) is Some,
        rank_index(pos@[1]) is Some,
    ensures
        r == rank_index(pos@[1])->Some_0 * 8 + file_index(pos@[0])->Some_0,
{
    let c0 = pos.get_char(0);
    let col: u64 = match c0 {
        'A' => 0,
        'B' => 1,
        'C' => 2,
        'D' => 3,
        'E' => 4,
        'F' => 5,
        'G' => 6,
        'H' => 7,
        _ => {
            proof {
                assert(false);
            }
            0
        },
    };
    let c1 = pos.get_char(1);
    let row: u64 = match c1 {
        '1' => 0,
        '2' => 1,
        '3' => 2,
        '4' => 3,
        '5' => 4,
        '6' => 5,
        '7' => 6,
        '8' => 7,
        _ => {
            proof {
                assert(false);
            }
            0
        },
    };
    row * 8 + col
}

} // verus!
