//! Encodings of the fields of a frame.
use vstd::arithmetic::power2::pow2;
use vstd::prelude::*;

pub mod group_laws;
pub mod tagged_32_variable;

pub use tagged_32_variable::tagged_32_variable;

verus! {

/// The number that `bits` bits of value `value` stand for in two's complement.
pub open spec fn two_complement(value: nat, bits: nat) -> int {
    if 2 * value >= pow2(bits) {
        value - pow2(bits)
    } else {
        value as int
    }
}

/// Reads the lowest `BITS` bits of `value` as a number in two's complement.
pub fn sign_extend<const BITS: u32>(value: u32) -> (extended: i32)
    requires
        1 <= BITS <= 32,
        value < pow2(BITS as nat),
    ensures
        extended == two_complement(value as nat, BITS as nat),
{
    proof {
        vstd::arithmetic::power2::lemma2_to64();
        vstd::arithmetic::power2::lemma_pow2_strictly_increases(BITS as nat, 64);
        if BITS < 32 {
            vstd::arithmetic::power2::lemma_pow2_strictly_increases(BITS as nat, 32);
        }
        vstd::bits::lemma_u64_pow2_no_overflow(BITS as nat);
        vstd::bits::lemma_u64_shl_is_mul(1, BITS as u64);
        assert(0 <= pow2(BITS as nat) <= 0x1_0000_0000);
    }
    let modulus: u64 = 1u64 << (BITS as u64);
    let value: u64 = value as u64;
    let extended: i64 = if 2 * value >= modulus {
        value as i64 - modulus as i64
    } else {
        value as i64
    };
    extended as i32
}

} // verus!
