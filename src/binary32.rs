//! Exact comparison of IEEE-754 binary32 values given by their bit patterns.
//!
//! Distances reach the library as the raw bits of a binary32 number. Every
//! decision the renderer makes on a distance is a comparison, and the functions
//! here compare two patterns exactly as the hardware `<` and `<=` do: NaN is
//! unordered, and the two zeros are equal.
use vstd::prelude::*;
use vstd::arithmetic::power2::{pow2, lemma_pow2_pos, lemma_pow2_adds, lemma_pow2_unfold};

verus! {

/// The pattern of the largest finite binary32 value.
pub const MAX_FINITE: u32 = 0x7f7f_ffff;

/// The pattern of `1.0`.
pub const ONE: u32 = 0x3f80_0000;

/// The pattern of `+0.0`.
pub const ZERO: u32 = 0;

/// The biased exponent: bits 23 to 30.
pub open spec fn exponent_field(b: u32) -> nat {
    ((b % 0x8000_0000) / 0x80_0000) as nat
}

/// The stored fraction: bits 0 to 22.
pub open spec fn fraction_field(b: u32) -> nat {
    (b % 0x80_0000) as nat
}

/// Bit 31.
pub open spec fn sign_set(b: u32) -> bool {
    b >= 0x8000_0000
}

pub open spec fn is_nan(b: u32) -> bool {
    exponent_field(b) == 255 && fraction_field(b) != 0
}

/// The magnitude that `b` encodes, counted in units of `2^-149`, the smallest
/// subnormal. For an infinity the same formula gives `2^277`, which is beyond
/// every finite magnitude.
#[verifier::opaque]
pub open spec fn magnitude(b: u32) -> nat {
    if exponent_field(b) == 0 {
        fraction_field(b)
    } else {
        (fraction_field(b) + 0x80_0000) * pow2((exponent_field(b) - 1) as nat)
    }
}

/// The value that a pattern other than NaN encodes, scaled by `2^149` so that
/// every value is an integer; infinities lie beyond every finite value.
pub open spec fn scaled_value(b: u32) -> int {
    if sign_set(b) {
        -magnitude(b)
    } else {
        magnitude(b) as int
    }
}

/// `a < b` on binary32 values.
pub open spec fn value_lt(a: u32, b: u32) -> bool {
    !is_nan(a) && !is_nan(b) && scaled_value(a) < scaled_value(b)
}

/// `a <= b` on binary32 values.
pub open spec fn value_le(a: u32, b: u32) -> bool {
    !is_nan(a) && !is_nan(b) && scaled_value(a) <= scaled_value(b)
}

proof fn lemma_fraction_of_low_bits(b: u32)
    ensures
        fraction_field(b) == (b % 0x8000_0000) % 0x80_0000,
{
    assert((b % 0x8000_0000) % 0x80_0000 == b % 0x80_0000) by (bit_vector);
}

proof fn lemma_magnitude_lower_bound(b: u32)
    requires
        exponent_field(b) >= 1,
    ensures
        magnitude(b) >= 0x80_0000 * pow2((exponent_field(b) - 1) as nat),
{
    reveal(magnitude);
    let p = pow2((exponent_field(b) - 1) as nat);
    let f = fraction_field(b);
    assert((f + 0x80_0000) * p >= 0x80_0000 * p) by (nonlinear_arith);
}

proof fn lemma_magnitude_upper_bound(b: u32)
    requires
        exponent_field(b) >= 1,
    ensures
        magnitude(b) < 0x80_0000 * pow2(exponent_field(b)),
{
    reveal(magnitude);
    let e = exponent_field(b);
    let p = pow2((e - 1) as nat);
    let f = fraction_field(b);
    lemma_pow2_unfold(e);
    lemma_pow2_pos((e - 1) as nat);
    assert(f < 0x80_0000);
    assert((f + 0x80_0000) * p < 0x100_0000 * p) by (nonlinear_arith)
        requires
            f < 0x80_0000,
            p > 0,
    ;
}

/// Below NaN, the magnitude grows strictly with the low 31 bits of the pattern.
proof fn lemma_magnitude_order(a: u32, b: u32)
    requires
        !is_nan(a),
        !is_nan(b),
    ensures
        a % 0x8000_0000 < b % 0x8000_0000 ==> magnitude(a) < magnitude(b),
        a % 0x8000_0000 == b % 0x8000_0000 ==> magnitude(a) == magnitude(b),
        magnitude(a) == 0 <==> a % 0x8000_0000 == 0,
{
    reveal(magnitude);
    lemma_fraction_of_low_bits(a);
    lemma_fraction_of_low_bits(b);
    let ea = exponent_field(a);
    let eb = exponent_field(b);
    let fa = fraction_field(a);
    let fb = fraction_field(b);
    if ea >= 1 {
        lemma_magnitude_lower_bound(a);
        lemma_pow2_pos((ea - 1) as nat);
        assert(0x80_0000 * pow2((ea - 1) as nat) > 0) by (nonlinear_arith)
            requires
                pow2((ea - 1) as nat) > 0,
        ;
    }
    if a % 0x8000_0000 < b % 0x8000_0000 {
        if ea == eb {
            assert(fa < fb);
            if ea >= 1 {
                let p = pow2((ea - 1) as nat);
                lemma_pow2_pos((ea - 1) as nat);
                assert((fa + 0x80_0000) * p < (fb + 0x80_0000) * p) by (nonlinear_arith)
                    requires
                        fa < fb,
                        p > 0,
                ;
            }
        } else {
            assert(ea < eb);
            lemma_magnitude_lower_bound(b);
            let q = pow2((eb - 1) as nat);
            if ea == 0 {
                lemma_pow2_pos((eb - 1) as nat);
                assert(0x80_0000 * q >= 0x80_0000) by (nonlinear_arith)
                    requires
                        q > 0,
                ;
            } else {
                lemma_magnitude_upper_bound(a);
                let d = (eb - 1 - ea) as nat;
                lemma_pow2_adds(ea, d);
                lemma_pow2_pos(d);
                let pa = pow2(ea);
                let pd = pow2(d);
                assert(q == pa * pd);
                assert(0x80_0000 * pa <= 0x80_0000 * (pa * pd)) by (nonlinear_arith)
                    requires
                        pd >= 1,
                        pa >= 0,
                ;
            }
        }
    }
}

/// The low 31 bits of a pattern are NaN exactly above the infinity pattern.
proof fn lemma_nan_bits(b: u32)
    ensures
        is_nan(b) <==> b % 0x8000_0000 > 0x7f80_0000,
{
    lemma_fraction_of_low_bits(b);
}

/// Whether a pattern is a NaN.
pub fn nan(b: u32) -> (r: bool)
    ensures
        r == is_nan(b),
{
    proof {
        lemma_nan_bits(b);
    }
    b % 0x8000_0000 > 0x7f80_0000
}

/// `a < b` on the binary32 values that the two patterns encode.
pub fn less_than(a: u32, b: u32) -> (r: bool)
    ensures
        r == value_lt(a, b),
{
    if nan(a) || nan(b) {
        return false;
    }
    proof {
        lemma_magnitude_order(a, b);
        lemma_magnitude_order(b, a);
    }
    let ma = a % 0x8000_0000;
    let mb = b % 0x8000_0000;
    let na = a >= 0x8000_0000;
    let nb = b >= 0x8000_0000;
    if !na && !nb {
        ma < mb
    } else if na && nb {
        mb < ma
    } else if na {
        !(ma == 0 && mb == 0)
    } else {
        false
    }
}

/// `a <= b` on the binary32 values that the two patterns encode.
pub fn less_equal(a: u32, b: u32) -> (r: bool)
    ensures
        r == value_le(a, b),
{
    !nan(a) && !nan(b) && !less_than(b, a)
}

} // verus!
