//! Bit ranges of machine words.
//!
//! The arithmetic meaning of a bit range is fixed here by two spec functions;
//! the executable operations are those of the `bit_field` crate.

use bit_field::BitField;
use vstd::arithmetic::power2::pow2;
use vstd::prelude::*;

verus! {

/// The number formed by bits `lo..hi` of `x`.
pub open spec fn bits_of(x: u64, lo: nat, hi: nat) -> nat {
    (x as nat / pow2(lo)) % pow2((hi - lo) as nat)
}

/// The word `x` with bits `lo..hi` replaced by `v`.
pub open spec fn with_bits(x: u64, lo: nat, hi: nat, v: u64) -> int {
    x as int - bits_of(x, lo, hi) * pow2(lo) + v as int * pow2(lo)
}

/// Whether bit `bit` of `x` is set.
pub open spec fn bit_of(x: u64, bit: nat) -> bool {
    bits_of(x, bit, bit + 1) == 1
}

/// The word `x` with bit `bit` forced to `value`.
pub open spec fn with_bit(x: u64, bit: nat, value: bool) -> int {
    if bit_of(x, bit) == value {
        x as int
    } else if value {
        x as int + pow2(bit)
    } else {
        x as int - pow2(bit)
    }
}

/// Calls `BitField::get_bits` of `bit_field` on a `u64` with the range
/// `lo..hi`. The contract claims that the call returns the bits `lo..hi` of
/// `x`, shifted down to bit 0; the ranges on which the call panics are
/// excluded.
#[verifier::external_body]
pub(crate) fn get_bits(x: u64, lo: usize, hi: usize) -> (r: u64)
    requires
        lo < hi <= 64,
    ensures
        r == bits_of(x, lo as nat, hi as nat),
{
    x.get_bits(lo..hi)
}

/// Calls `BitField::set_bits` of `bit_field` on a `u64` with the range
/// `lo..hi`. The contract claims that the call replaces exactly the bits
/// `lo..hi` by `v`; the ranges and the oversized values on which the call
/// panics are excluded.
#[verifier::external_body]
pub(crate) fn set_bits(x: u64, lo: usize, hi: usize, v: u64) -> (r: u64)
    requires
        lo < hi <= 64,
        (v as nat) < pow2((hi - lo) as nat),
    ensures
        r == with_bits(x, lo as nat, hi as nat, v),
{
    let mut word = x;
    word.set_bits(lo..hi, v);
    word
}

/// Calls `BitField::get_bit` of `bit_field` on a `u64`. The contract
/// claims that the call tells whether bit `bit` of `x` is set; it panics for
/// a bit outside the word, which is excluded.
#[verifier::external_body]
pub(crate) fn get_bit(x: u64, bit: usize) -> (r: bool)
    requires
        bit < 64,
    ensures
        r == bit_of(x, bit as nat),
{
    x.get_bit(bit)
}

/// Calls `BitField::set_bit` of `bit_field` on a `u64`. The contract
/// claims that the call forces bit `bit` of `x` to `value` and leaves the
/// other bits alone; it panics for a bit outside the word, which is excluded.
#[verifier::external_body]
pub(crate) fn set_bit(x: u64, bit: usize, value: bool) -> (r: u64)
    requires
        bit < 64,
    ensures
        r == with_bit(x, bit as nat, value),
{
    let mut word = x;
    word.set_bit(bit, value);
    word
}

} // verus!
