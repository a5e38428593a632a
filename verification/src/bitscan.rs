use vstd::prelude::*;

use crate::gen_bitscan::{hash, hash_spec, wrap_mul64};

verus! {

/// The multiplier of the 64-bit magic bitscan, produced once by the offline
/// search: hashing the 64 single-bit values through the top-6-bit
/// multiply-shift yields 64 distinct table slots.
pub const BITSCAN_MAGIC: u64 = 0x7edd5e59a4e28c2;

/// A value with exactly one set bit: a power of two.
pub open spec fn single_bit(i: u64) -> bool {
    exists|k: u64| k < 64 && i == (1u64 << k)
}

/// The table slot the magic hash assigns to `i`.
pub open spec fn scan_slot(i: u64) -> u64 {
    hash_spec(i, BITSCAN_MAGIC, 6)
}

/// A 6-bit hash is below 64.
proof fn lemma_slot_small(x: u64, m: u64)
    ensures
        hash_spec(x, m, 6) < 64,
{
    let p = wrap_mul64(x, m);
    assert(p >> 58u64 < 64) by (bit_vector);
}

/// Distinct bit positions give distinct single-bit values.
pub proof fn lemma_single_bit_index(a: u64, b: u64)
    requires
        a < 64,
        b < 64,
        (1u64 << a) == (1u64 << b),
    ensures
        a == b,
{
    assert(a < 64 && b < 64 && (1u64 << a) == (1u64 << b) ==> a == b) by (bit_vector);
}

/// Build the 64-entry lookup table by hashing each single-bit value into
/// its slot, exactly as the offline generator does; `None` on a slot
/// collision, which the shipped magic never produces.
fn bitscan_table() -> (r: Option<Vec<u64>>)
    ensures
        r matches Some(db) ==> db@.len() == 64 && forall|k: u64|
            k < 64 ==> scan_slot(1u64 << k) < 64 && db@[#[trigger] scan_slot(1u64 << k) as int] == k,
{
    let mut db: Vec<u64> = vec![0u64; 64];
    let mut used: Vec<bool> = vec![false; 64];
    let mut k: u64 = 0;
    while k < 64
        invariant
            db@.len() == 64,
            used@.len() == 64,
            k <= 64,
            forall|j: u64|
                j < k ==> scan_slot(1u64 << j) < 64 && used@[#[trigger] scan_slot(1u64 << j) as int]
                    && db@[scan_slot(1u64 << j) as int] == j,
        decreases 64 - k,
    {
        let bit = 1u64 << k;
        let slot = hash(bit, BITSCAN_MAGIC, 6);
        proof {
            lemma_slot_small(bit, BITSCAN_MAGIC);
        }
        if used[slot as usize] {
            return None;
        }
        used[slot as usize] = true;
        db[slot as usize] = k;
        k = k + 1;
    }
    Some(db)
}

/// The bit index of a single-bit pattern: multiply by the magic, take the
/// top 6 bits of the product, and look the index up in the precomputed
/// table. Defined only for powers of two.
pub fn bitscan(i: u64) -> (r: u64)
    requires
        single_bit(i),
    ensures
        r < 64,
        i == (1u64 << r),
        forall|k: u64| k < 64 && i == (1u64 << k) ==> r == k,
{
    let r: u64;
    match bitscan_table() {
        Some(db) => {
            let slot = hash(i, BITSCAN_MAGIC, 6);
            proof {
                lemma_slot_small(i, BITSCAN_MAGIC);
                let k = choose|k: u64| k < 64 && i == (1u64 << k);
                assert(scan_slot(1u64 << k) == scan_slot(i));
                assert(db@[slot as int] == k);
            }
            r = db[slot as usize];
        },
        None => {
            r = bitscan_linear(i);
        },
    }
    proof {
        assert forall|k: u64| k < 64 && i == (1u64 << k) implies r == k by {
            lemma_single_bit_index(r, k);
        }
    }
    r
}

/// Fallback scan over the 64 bit positions, used only if table
/// construction ever failed.
fn bitscan_linear(i: u64) -> (r: u64)
    requires
        single_bit(i),
    ensures
        r < 64,
        i == (1u64 << r),
{
    let mut k: u64 = 0;
    while k < 64
        invariant
            k <= 64,
            forall|j: u64| j < k ==> i != (1u64 << j),
        decreases 64 - k,
    {
        if i == 1u64 << k {
            return k;
        }
        k = k + 1;
    }
    proof {
        let w = choose|k2: u64| k2 < 64 && i == (1u64 << k2);
        assert(false);
    }
    0
}

} // verus!
