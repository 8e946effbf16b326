//! The meaning of a sample's bit pattern.
//!
//! A sample is an IEEE-754 single-precision number, carried as its 32-bit
//! pattern. The magnitude of a finite pattern is stated as a natural number
//! of units of 2^-149, the spacing of the smallest subnormals, so that every
//! finite sample has an exact integer magnitude.

use vstd::arithmetic::power2::*;
use vstd::prelude::*;

verus! {

/// The sign bit of a pattern.
pub const SIGN_BIT: u32 = 0x8000_0000;

/// Every bit of a pattern but the sign.
pub const UNSIGNED_MASK: u32 = 0x7fff_ffff;

/// The unsigned pattern of infinity; every larger unsigned pattern is a NaN.
pub const INFINITY: u32 = 0x7f80_0000;

/// The pattern of 1.0.
pub const ONE: u32 = 0x3f80_0000;

/// The pattern with its sign bit cleared.
pub open spec fn unsigned_part(bits: u32) -> u32 {
    (bits % 0x8000_0000) as u32
}

/// Whether the sign bit is set.
pub open spec fn is_negative(bits: u32) -> bool {
    bits >= 0x8000_0000
}

/// Whether the pattern is not a number.
pub open spec fn is_nan(bits: u32) -> bool {
    unsigned_part(bits) > 0x7f80_0000
}

/// Whether the pattern is positive or negative infinity.
pub open spec fn is_infinite(bits: u32) -> bool {
    unsigned_part(bits) == 0x7f80_0000
}

/// Whether the pattern is a number other than an infinity.
pub open spec fn is_finite(bits: u32) -> bool {
    unsigned_part(bits) < 0x7f80_0000
}

/// The eight exponent bits.
pub open spec fn exponent_field(bits: u32) -> nat {
    (unsigned_part(bits) / 0x80_0000) as nat
}

/// The twenty-three fraction bits.
pub open spec fn fraction_field(bits: u32) -> nat {
    (unsigned_part(bits) % 0x80_0000) as nat
}

/// The absolute value of a finite pattern, in units of 2^-149.
///
/// A subnormal pattern is worth its fraction bits; a normal pattern is worth
/// its 24-bit significand scaled by the exponent.
pub open spec fn magnitude(bits: u32) -> nat {
    if exponent_field(bits) == 0 {
        fraction_field(bits)
    } else {
        (0x80_0000 + fraction_field(bits)) * pow2((exponent_field(bits) - 1) as nat)
    }
}

/// The value of a finite pattern, in units of 2^-149.
pub open spec fn value(bits: u32) -> int {
    if is_negative(bits) {
        -(magnitude(bits) as int)
    } else {
        magnitude(bits) as int
    }
}

/// The magnitude of 1.0, in units of 2^-149.
pub open spec fn unit() -> nat {
    pow2(149)
}

/// Within one exponent, and up to the first pattern of the next, the
/// magnitude is linear in the pattern.
pub proof fn lemma_magnitude_within_exponent(a: u32, e: nat)
    requires
        1 <= e <= 254,
        e * 0x80_0000 <= a <= (e + 1) * 0x80_0000,
    ensures
        magnitude(a) == (a - (e - 1) * 0x80_0000) * pow2((e - 1) as nat),
{
    if a < (e + 1) * 0x80_0000 {
        assert(exponent_field(a) == e);
        assert(fraction_field(a) == a - e * 0x80_0000);
    } else {
        assert(exponent_field(a) == e + 1);
        assert(fraction_field(a) == 0);
        lemma_pow2_unfold(e);
        let p = pow2((e - 1) as nat);
        assert(0x80_0000 * (2 * p) == (2 * 0x80_0000) * p) by (nonlinear_arith);
    }
}

/// The pattern of a magnitude below that of the first pattern of the next
/// exponent.
proof fn lemma_magnitude_below_next_exponent(a: u32)
    requires
        a < 0x7f80_0000,
    ensures
        magnitude(a) < 0x80_0000 * pow2(exponent_field(a)),
        exponent_field(a) >= 1 ==> magnitude(a) >= 0x80_0000 * pow2(
            (exponent_field(a) - 1) as nat,
        ),
{
    let e = exponent_field(a);
    let f = fraction_field(a);
    if e == 0 {
        lemma2_to64();
    } else {
        let p = pow2((e - 1) as nat);
        lemma_pow2_unfold(e);
        lemma_pow2_pos((e - 1) as nat);
        assert((0x80_0000 + f) * p < 0x80_0000 * (2 * p)) by (nonlinear_arith)
            requires
                0 <= f < 0x80_0000,
                p > 0,
        ;
        assert((0x80_0000 + f) * p >= 0x80_0000 * p) by (nonlinear_arith)
            requires
                0 <= f,
                p > 0,
        ;
    }
}

/// Among unsigned patterns up to infinity, a larger pattern has a larger
/// magnitude.
pub proof fn lemma_magnitude_increases(a: u32, b: u32)
    requires
        a < b <= 0x7f80_0000,
    ensures
        magnitude(a) < magnitude(b),
{
    let ea = exponent_field(a);
    let eb = exponent_field(b);
    assert(ea <= eb);
    if ea == eb {
        let fa = fraction_field(a);
        let fb = fraction_field(b);
        assert(fa < fb);
        if ea > 0 {
            let p = pow2((ea - 1) as nat);
            lemma_pow2_pos((ea - 1) as nat);
            assert((0x80_0000 + fa) * p < (0x80_0000 + fb) * p) by (nonlinear_arith)
                requires
                    fa < fb,
                    p > 0,
            ;
        }
    } else {
        lemma_magnitude_below_next_exponent(a);
        let fb = fraction_field(b);
        let pa = pow2(ea);
        let pb = pow2((eb - 1) as nat);
        if ea < eb - 1 {
            lemma_pow2_strictly_increases(ea, (eb - 1) as nat);
        }
        assert(pa <= pb);
        assert((0x80_0000 + fb) * pb >= 0x80_0000 * pa) by (nonlinear_arith)
            requires
                0 <= fb,
                0 <= pa <= pb,
        ;
    }
}

/// Two finite unsigned patterns of one magnitude are one pattern.
pub proof fn lemma_magnitude_injective(a: u32, b: u32)
    requires
        a <= 0x7f80_0000,
        b <= 0x7f80_0000,
        magnitude(a) == magnitude(b),
    ensures
        a == b,
{
    if a < b {
        lemma_magnitude_increases(a, b);
    } else if b < a {
        lemma_magnitude_increases(b, a);
    }
}

/// The magnitude of 1.0 is the unit.
pub proof fn lemma_magnitude_of_one()
    ensures
        magnitude(ONE) == unit(),
{
    assert(exponent_field(ONE) == 127);
    assert(fraction_field(ONE) == 0);
    lemma_pow2_adds(23, 126);
    lemma2_to64();
}

} // verus!
