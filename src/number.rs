//! Integers as IEEE 754 binary64 bit patterns.
use vstd::arithmetic::div_mod::lemma_fundamental_div_mod_converse;
use vstd::arithmetic::power2::{
    lemma2_to64,
    lemma_pow2_adds,
    lemma_pow2_strictly_increases,
    lemma_pow2_unfold,
    pow2,
};
use vstd::prelude::*;

verus! {

/// 2^52: the weight of the implicit leading bit of a normal double.
pub const FRACTION_ONE: u64 = 0x10000000000000;

/// 2^63: the weight of the sign bit.
pub const SIGN_BIT: u64 = 0x8000000000000000;

/// The sign field of a binary64 bit pattern (1 for negative).
pub open spec fn sign_field(bits: u64) -> int {
    bits as int / SIGN_BIT as int
}

/// The biased exponent field of a binary64 bit pattern.
pub open spec fn exponent_field(bits: u64) -> int {
    (bits as int / FRACTION_ONE as int) % 0x800
}

/// The fraction field of a binary64 bit pattern.
pub open spec fn fraction_field(bits: u64) -> int {
    bits as int % FRACTION_ONE as int
}

/// Holds when `bits` is the binary64 encoding of the integer `n`: positive zero
/// for zero, otherwise a normal number whose value `(2^52 + fraction) * 2^(exponent - 1075)`
/// is exactly `n`.
pub open spec fn encodes_int(bits: u64, n: int) -> bool {
    if n == 0 {
        bits == 0
    } else {
        &&& sign_field(bits) == (if n < 0 { 1int } else { 0int })
        &&& 1 <= exponent_field(bits) <= 1075
        &&& FRACTION_ONE as int + fraction_field(bits) == (if n < 0 { -n } else { n }) * pow2(
            (1075 - exponent_field(bits)) as nat,
        )
    }
}

/// The binary64 bit pattern of the double whose value is exactly `n`; every
/// `i32` is representable, so the conversion loses nothing.
pub fn int_to_double_bits(n: i32) -> (bits: u64)
    ensures
        encodes_int(bits, n as int),
{
    if n == 0 {
        return 0;
    }
    let neg = n < 0;
    let m: u64 = if neg { (0i64 - n as i64) as u64 } else { n as u64 };
    proof {
        lemma2_to64();
    }
    // p = 2^k is the largest power of two not above m
    let mut k: u64 = 0;
    let mut p: u64 = 1;
    while p <= m / 2
        invariant
            1 <= m <= 0x80000000,
            p as nat == pow2(k as nat),
            1 <= p <= m,
            k <= 31,
            pow2(31) == 0x80000000,
        decreases m - p,
    {
        proof {
            lemma_pow2_unfold((k + 1) as nat);
            if k + 1 > 31 {
                lemma_pow2_strictly_increases(31, (k + 1) as nat);
            }
        }
        p = p * 2;
        k = k + 1;
    }
    // shift m left until its leading bit has weight 2^52
    let mut mant: u64 = m;
    let mut j: u64 = k;
    proof {
        lemma_pow2_unfold((k + 1) as nat);
        lemma2_to64();
        lemma_pow2_adds(32, 20);
        lemma_pow2_adds(32, 21);
        assert(m as int * pow2(0) == m as int);
    }
    while j < 52
        invariant
            k <= j <= 52,
            k <= 31,
            mant as int == m as int * pow2((j - k) as nat),
            pow2(j as nat) <= mant < pow2((j + 1) as nat),
            pow2(52) == FRACTION_ONE,
            pow2(53) == 0x20000000000000,
        decreases 52 - j,
    {
        proof {
            lemma_pow2_unfold((j + 1) as nat);
            lemma_pow2_unfold((j + 2) as nat);
            lemma_pow2_unfold((j + 1 - k) as nat);
            lemma_pow2_strictly_increases((j + 1) as nat, 53);
            lemma_pow2_unfold(53);
            assert(m as int * pow2((j + 1 - k) as nat) == (m as int * pow2((j - k) as nat)) * 2)
                by (nonlinear_arith)
                requires
                    pow2((j + 1 - k) as nat) == 2 * pow2((j - k) as nat),
            ;
        }
        mant = mant * 2;
        j = j + 1;
    }
    assert(j == 52);
    assert(FRACTION_ONE <= mant < 0x20000000000000);
    let e: u64 = 1023 + k;
    let f: u64 = mant - FRACTION_ONE;
    let s: u64 = if neg { 1 } else { 0 };
    assert((e as int * FRACTION_ONE as int + f as int) < (SIGN_BIT as int)) by (nonlinear_arith)
        requires
            e <= 1054,
            f < FRACTION_ONE,
    ;
    let bits: u64 = s * SIGN_BIT + e * FRACTION_ONE + f;
    proof {
        let q = s as int * 0x800 + e as int;
        assert(bits as int == q * FRACTION_ONE as int + f as int);
        lemma_fundamental_div_mod_converse(bits as int, FRACTION_ONE as int, q, f as int);
        lemma_fundamental_div_mod_converse(q, 0x800, s as int, e as int);
        assert(bits as int == s as int * SIGN_BIT as int + (e as int * FRACTION_ONE as int + f as int));
        lemma_fundamental_div_mod_converse(
            bits as int,
            SIGN_BIT as int,
            s as int,
            e as int * FRACTION_ONE as int + f as int,
        );
        assert(1075 - exponent_field(bits) == 52 - k);
    }
    bits
}

} // verus!
