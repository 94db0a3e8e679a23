//! Bit-level vocabulary for the 32-bit bank registers: testing and forcing a
//! single bit of a register word, and the coupling that turns driven data and
//! direction bits into the externally observed line level.

use vstd::prelude::*;

verus! {

/// True when bit `i` of `w` is set.
pub open spec fn bit_set(w: u32, i: u32) -> bool {
    (w >> i) & 1u32 == 1u32
}

/// `w` with bit `i` forced to `level` and every other bit unchanged.
pub open spec fn with_bit(w: u32, i: u32, level: bool) -> u32 {
    if level {
        w | (1u32 << i)
    } else {
        w & !(1u32 << i)
    }
}

/// The externally observable level word of a bank: an output line (direction
/// bit set) shows the bit driven through the data register, an input line
/// keeps the level last sampled from outside.
pub open spec fn coupled_ext(data: u32, dir: u32, ext: u32) -> u32 {
    (data & dir) | (ext & !dir)
}

/// No bit of an all-zero register word is set.
pub proof fn lemma_bit_set_zero(i: u32)
    by (bit_vector)
    ensures
        !bit_set(0u32, i),
{
}

/// Forcing bit `i` leaves exactly bit `i` at `level` and every other bit as
/// it was.
pub proof fn lemma_with_bit(w: u32, i: u32, level: bool, j: u32)
    by (bit_vector)
    requires
        i < 32,
        j < 32,
    ensures
        bit_set(with_bit(w, i, level), i) == level,
        i != j ==> bit_set(with_bit(w, i, level), j) == bit_set(w, j),
{
}

/// Forcing the same bit to the same level twice is the same as doing it once.
pub proof fn lemma_with_bit_idempotent(w: u32, i: u32, level: bool)
    by (bit_vector)
    requires
        i < 32,
    ensures
        with_bit(with_bit(w, i, level), i, level) == with_bit(w, i, level),
{
}

/// Forcing two distinct bits commutes: the order of the two updates does not
/// matter.
pub proof fn lemma_with_bit_commutes(w: u32, i: u32, a: bool, j: u32, b: bool)
    by (bit_vector)
    requires
        i < 32,
        j < 32,
        i != j,
    ensures
        with_bit(with_bit(w, i, a), j, b) == with_bit(with_bit(w, j, b), i, a),
{
}

/// Bit `i` of the coupled level word: the driven bit on an output line, the
/// previously sampled bit on an input line.
pub proof fn lemma_coupled_bit(data: u32, dir: u32, ext: u32, i: u32)
    by (bit_vector)
    requires
        i < 32,
    ensures
        bit_set(coupled_ext(data, dir, ext), i) == if bit_set(dir, i) {
            bit_set(data, i)
        } else {
            bit_set(ext, i)
        },
{
}

/// Re-sampling an already coupled level word with the same data and direction
/// words changes nothing more: only the first coupling matters.
pub proof fn lemma_coupled_absorbs(d2: u32, d1: u32, dir: u32, ext: u32)
    by (bit_vector)
    ensures
        coupled_ext(d2, dir, coupled_ext(d1, dir, ext)) == coupled_ext(d2, dir, ext),
{
}

} // verus!
