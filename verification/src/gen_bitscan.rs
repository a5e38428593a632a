use vstd::prelude::*;

verus! {

/// The low 64 bits of the product `a * b`.
pub open spec fn wrap_mul64(a: u64, b: u64) -> u64 {
    ((a * b) % 0x1_0000_0000_0000_0000) as u64
}

/// Multiply-shift hash: the top `s` bits of the wrapped 64-bit product of
/// `a` and `b`.
pub open spec fn hash_spec(a: u64, b: u64, s: u64) -> u64
    recommends
        1 <= s <= 64,
{
    wrap_mul64(a, b) >> ((64 - s) as u64)
}

pub fn hash(a: u64, b: u64, s: u64) -> (r: u64)
    requires
        1 <= s <= 64,
    ensures
        r == hash_spec(a, b, s),
{
    (a.wrapping_mul(b)) >> (64 - s)
}

/// Some bit of `magic` at position `pointer` or below is clear.
pub open spec fn has_zero_bit_upto(magic: u64, pointer: u64) -> bool {
    exists|j: u64| j <= pointer && (magic >> j) & 1 == 0
}

/// The backtracking step of the offline magic search: if bit `pointer` of
/// `magic` is clear, toggle it to 1 and retry at the same position;
/// otherwise clear it and back up one position. The result is the repaired
/// candidate and the position the search resumes from.
pub open spec fn wrong_spec(magic: u64, pointer: u64) -> (u64, u64)
    recommends
        pointer < 64,
        has_zero_bit_upto(magic, pointer),
    decreases pointer,
{
    if (magic >> pointer) & 1 == 0 {
        (magic ^ (1u64 << pointer), pointer)
    } else if pointer == 0 {
        (magic, pointer)
    } else {
        wrong_spec(magic ^ (1u64 << pointer), (pointer - 1) as u64)
    }
}

/// Toggling bit `p` leaves every other bit unchanged.
proof fn lemma_xor_bit_other(m: u64, p: u64, j: u64)
    requires
        p < 64,
        j < 64,
        j != p,
    ensures
        ((m ^ (1u64 << p)) >> j) & 1 == (m >> j) & 1,
{
    assert(p < 64 && j < 64 && j != p ==> ((m ^ (1u64 << p)) >> j) & 1 == (m >> j) & 1)
        by (bit_vector);
}

/// Advance the magic-candidate search past a collision. A candidate whose
/// bits 0..=pointer are all set has no successor: that input is excluded.
pub fn wrong(magic: u64, pointer: u64) -> (r: (u64, u64))
    requires
        pointer < 64,
        has_zero_bit_upto(magic, pointer),
    ensures
        r == wrong_spec(magic, pointer),
    decreases pointer,
{
    if (magic >> pointer) & 1 == 0 {
        (magic ^ (1u64 << pointer), pointer)
    } else {
        if pointer == 0 {
            proof {
                let j = choose|j: u64| j <= pointer && (magic >> j) & 1 == 0;
                assert(false);
            }
            (magic, pointer)
        } else {
            proof {
                let j = choose|j: u64| j <= pointer && (magic >> j) & 1 == 0;
                assert(j < pointer);
                lemma_xor_bit_other(magic, pointer, j);
                assert(((magic ^ (1u64 << pointer)) >> j) & 1 == 0 && j <= pointer - 1);
                assert(has_zero_bit_upto(magic ^ (1u64 << pointer), (pointer - 1) as u64));
            }
            wrong(magic ^ (1u64 << pointer), pointer - 1)
        }
    }
}

} // verus!
