//! Sample-precision reduction.
//!
//! A sample is clamped to [-2^23, 2^23] and rounded to the nearest multiple
//! of 2^-23, halves away from zero. Each step is exact in single precision,
//! so the whole reduction is integer arithmetic on the bit pattern.

use crate::sample::{
    exponent_field, fraction_field, is_finite, is_infinite, is_nan, is_negative,
    lemma_magnitude_increases, lemma_magnitude_injective, lemma_magnitude_of_one,
    lemma_magnitude_within_exponent, magnitude, unsigned_part, INFINITY, ONE, SIGN_BIT,
    UNSIGNED_MASK,
};
use vstd::arithmetic::div_mod::*;
use vstd::arithmetic::mul::*;
use vstd::arithmetic::power2::*;
use vstd::bits::*;
use vstd::prelude::*;

verus! {

/// The pattern of 2^23, the largest magnitude that is kept.
pub const FULL_SCALE: u32 = 0x4b00_0000;

/// The spacing of the grid, 2^-23, in units of 2^-149.
pub open spec fn grid_step() -> nat {
    pow2(126)
}

/// The magnitude of 2^23, in units of 2^-149.
pub open spec fn full_scale() -> nat {
    pow2(172)
}

/// The nearest multiple of the grid step to a magnitude, halves upwards,
/// after clamping to full scale. Magnitudes are in units of 2^-149.
pub open spec fn quantized_magnitude(v: nat) -> nat {
    if v >= full_scale() {
        full_scale()
    } else {
        ((v + pow2(125)) / grid_step()) * grid_step()
    }
}

/// Whether `out` is the reduction of `bits`.
///
/// A NaN is left as it is. An infinity becomes full scale of its sign. A
/// finite sample keeps its sign, a zero too, and its magnitude becomes the
/// quantized magnitude.
pub open spec fn is_quantized_from(out: u32, bits: u32) -> bool {
    if is_nan(bits) {
        out == bits
    } else {
        &&& is_finite(out)
        &&& is_negative(out) == is_negative(bits)
        &&& magnitude(out) == if is_infinite(bits) {
            full_scale()
        } else {
            quantized_magnitude(magnitude(bits))
        }
    }
}

/// A multiple of the grid step below full scale is its own quantized
/// magnitude, and so is full scale.
pub proof fn lemma_grid_point_is_fixed(k: nat)
    requires
        k * grid_step() <= full_scale(),
    ensures
        quantized_magnitude(k * grid_step()) == k * grid_step(),
{
    let s = grid_step() as int;
    let v = k * grid_step();
    if v < full_scale() {
        lemma_pow2_unfold(126);
        lemma_pow2_pos(125);
        let h = pow2(125) as int;
        assert(s == 2 * h);
        lemma_fundamental_div_mod_converse(k * s + h, s, k as int, h);
    }
}

/// A quantized magnitude is a multiple of the grid step, at most full scale.
pub proof fn lemma_quantized_magnitude_on_grid(v: nat) -> (k: nat)
    ensures
        quantized_magnitude(v) == k * grid_step(),
        k * grid_step() <= full_scale(),
{
    lemma_pow2_adds(46, 126);
    lemma_pow2_unfold(126);
    lemma_pow2_pos(125);
    lemma_pow2_pos(126);
    let s = grid_step() as int;
    let h = pow2(125) as int;
    let top = pow2(46);
    assert(full_scale() == top * grid_step());
    if v >= full_scale() {
        top
    } else {
        let k = (v + h) / s;
        lemma_fundamental_div_mod(v + h, s);
        assert(0 <= k) by {
            lemma_div_pos_is_pos(v + h, s);
        }
        lemma_mul_is_commutative(s, k);
        assert(k * s <= v + h);
        assert(k <= top) by {
            if k > top {
                assert(k * s >= (top + 1) * s) by (nonlinear_arith)
                    requires
                        k >= top + 1,
                        s > 0,
                ;
                assert((top + 1) * s == top * s + s) by (nonlinear_arith);
            }
        }
        assert(k * s <= top * s) by (nonlinear_arith)
            requires
                0 <= k <= top,
                s > 0,
        ;
        k as nat
    }
}

/// Reducing twice is reducing once, on magnitudes.
pub proof fn lemma_quantized_magnitude_idempotent(v: nat)
    ensures
        quantized_magnitude(quantized_magnitude(v)) == quantized_magnitude(v),
{
    let k = lemma_quantized_magnitude_on_grid(v);
    lemma_grid_point_is_fixed(k);
}

/// The reduction of a pattern is unique.
pub proof fn lemma_quantized_unique(bits: u32, first: u32, second: u32)
    requires
        is_quantized_from(first, bits),
        is_quantized_from(second, bits),
    ensures
        first == second,
{
    if !is_nan(bits) {
        lemma_magnitude_injective(unsigned_part(first), unsigned_part(second));
    }
}

/// Reducing a reduced sample changes nothing.
pub proof fn lemma_quantized_idempotent(bits: u32, once: u32, twice: u32)
    requires
        is_quantized_from(once, bits),
        is_quantized_from(twice, once),
    ensures
        twice == once,
{
    if !is_nan(bits) {
        if is_infinite(bits) {
            lemma_pow2_adds(46, 126);
            lemma_grid_point_is_fixed(pow2(46));
        } else {
            lemma_quantized_magnitude_idempotent(magnitude(bits));
        }
        assert(magnitude(twice) == magnitude(once));
        lemma_magnitude_injective(unsigned_part(twice), unsigned_part(once));
    }
}

/// A magnitude of at least 1.0 and below full scale lies on the grid.
proof fn lemma_whole_values_are_fixed(a: u32)
    requires
        ONE <= a < FULL_SCALE,
    ensures
        quantized_magnitude(magnitude(a)) == magnitude(a),
{
    let e = exponent_field(a);
    let f = fraction_field(a);
    assert(127 <= e <= 149);
    let up = pow2((e - 127) as nat);
    lemma_pow2_adds((e - 127) as nat, 126);
    assert(pow2((e - 1) as nat) == up * grid_step());
    let k = (0x80_0000 + f) * up;
    assert(magnitude(a) == k * grid_step()) by {
        lemma_mul_is_associative((0x80_0000 + f) as int, up as int, grid_step() as int);
    }
    lemma_magnitude_increases(a, FULL_SCALE);
    lemma_magnitude_of_full_scale();
    lemma_grid_point_is_fixed(k);
}

/// The magnitude of the full-scale pattern.
proof fn lemma_magnitude_of_full_scale()
    ensures
        magnitude(FULL_SCALE) == full_scale(),
{
    assert(exponent_field(FULL_SCALE) == 150);
    assert(fraction_field(FULL_SCALE) == 0);
    lemma_pow2_adds(23, 149);
    lemma2_to64();
}

/// A pattern below 2^-24 is nearer to zero than to the first grid point.
proof fn lemma_tiny_values_vanish(a: u32)
    requires
        a < 103 * 0x80_0000,
    ensures
        quantized_magnitude(magnitude(a)) == 0,
{
    let limit: u32 = 0x3380_0000;
    lemma_magnitude_increases(a, limit);
    assert(exponent_field(limit) == 103);
    assert(fraction_field(limit) == 0);
    lemma_pow2_adds(23, 102);
    lemma2_to64();
    assert(magnitude(limit) == pow2(125));
    lemma_pow2_unfold(126);
    lemma_pow2_strictly_increases(125, 172);
    let v = magnitude(a) as int;
    let h = pow2(125) as int;
    lemma_fundamental_div_mod_converse(v + h, 2 * h, 0, v + h);
}

/// Rounding the pattern of a value between 2^-24 and 1.0 to a multiple of
/// the weight that the grid step has in its exponent rounds the value to
/// the grid.
proof fn lemma_rounded_pattern(a: u32, rounded: u32)
    requires
        103 * 0x80_0000 <= a < 127 * 0x80_0000,
        ({
            let sh = (127 - a / 0x80_0000) as nat;
            rounded == ((a + pow2((sh - 1) as nat)) / (pow2(sh) as int)) * pow2(sh)
        }),
    ensures
        rounded <= ONE,
        magnitude(rounded) == quantized_magnitude(magnitude(a)),
{
    let e = (a / 0x80_0000) as nat;
    let m = (a % 0x80_0000) as int;
    let sh = (127 - e) as nat;
    let g = pow2(sh) as int;
    let h = pow2((sh - 1) as nat) as int;
    let p = pow2((e - 1) as nat) as int;
    let big = 0x80_0000 + m;
    assert(exponent_field(a) == e);
    assert(fraction_field(a) == m);
    lemma_pow2_unfold(sh);
    lemma_pow2_pos((sh - 1) as nat);
    lemma_pow2_pos((e - 1) as nat);
    lemma_pow2_adds(sh, (e - 1) as nat);
    lemma_pow2_adds((sh - 1) as nat, (e - 1) as nat);
    assert(g == 2 * h);
    assert(g * p == pow2(126));
    assert(h * p == pow2(125));
    let v = magnitude(a) as int;
    assert(v == big * p);
    // The value is below full scale.
    lemma_magnitude_increases(a, ONE);
    lemma_magnitude_of_one();
    lemma_pow2_strictly_increases(149, 172);
    // The grid index of the value is the rounded significand.
    let r = (big + h) / g;
    assert(v + h * p == p * (big + h)) by (nonlinear_arith)
        requires
            v == big * p,
    ;
    assert(pow2(126) == p * g) by (nonlinear_arith)
        requires
            g * p == pow2(126),
    ;
    lemma_div_multiples_vanish_quotient(p, big + h, g);
    assert((v + pow2(125)) / (pow2(126) as int) == r);
    assert(quantized_magnitude(magnitude(a)) == r * pow2(126));
    lemma_fundamental_div_mod(big + h, g);
    lemma_mul_is_commutative(g, r);
    assert(big + h - g < r * g <= big + h);
    if sh <= 23 {
        let c = pow2((23 - sh) as nat) as int;
        lemma_pow2_adds((23 - sh) as nat, sh);
        lemma2_to64();
        lemma_pow2_pos((23 - sh) as nat);
        assert(c * g == 0x80_0000);
        // The rounded significand stays between 2^23 and 2^24.
        assert(r >= c) by {
            if r < c {
                assert(r * g <= (c - 1) * g) by (nonlinear_arith)
                    requires
                        r <= c - 1,
                        g > 0,
                ;
                assert((c - 1) * g == c * g - g) by (nonlinear_arith);
            }
        }
        assert(r <= 2 * c) by {
            if r > 2 * c {
                assert(r * g >= (2 * c + 1) * g) by (nonlinear_arith)
                    requires
                        r >= 2 * c + 1,
                        g > 0,
                ;
                assert((2 * c + 1) * g == 2 * (c * g) + g) by (nonlinear_arith);
            }
        }
        assert(c * g <= r * g <= 2 * (c * g)) by (nonlinear_arith)
            requires
                c <= r <= 2 * c,
                g > 0,
        ;
        // The pattern carries the exponent in front of the significand.
        let lead = (e - 1) * c;
        assert(a + h == big + h + lead * g) by (nonlinear_arith)
            requires
                a == e * 0x80_0000 + m,
                big == 0x80_0000 + m,
                lead == (e - 1) * c,
                c * g == 0x80_0000,
        ;
        lemma_hoist_over_denominator(big + h, lead, g as nat);
        assert((a + h) / g == r + lead);
        assert((r + lead) * g == r * g + (e - 1) * 0x80_0000) by (nonlinear_arith)
            requires
                lead == (e - 1) * c,
                c * g == 0x80_0000,
        ;
        assert(rounded == (e - 1) * 0x80_0000 + r * g);
        lemma_magnitude_within_exponent(rounded, e);
        assert(magnitude(rounded) == (r * g) * p);
        lemma_mul_is_associative(r, g, p);
        assert(magnitude(rounded) == r * pow2(126));
    } else {
        lemma2_to64();
        assert(sh == 24 && e == 103);
        assert(g == 0x100_0000 && h == 0x80_0000);
        lemma_fundamental_div_mod_converse(big + h, g, 1, m);
        lemma_fundamental_div_mod_converse(a + h, g, 52, m);
        assert(rounded == 104 * 0x80_0000);
        assert(exponent_field(rounded) == 104);
        assert(fraction_field(rounded) == 0);
        lemma_pow2_adds(23, 103);
        assert(magnitude(rounded) == 0x80_0000 * pow2(103));
        assert(magnitude(rounded) == pow2(126));
        assert(r * pow2(126) == pow2(126)) by (nonlinear_arith)
            requires
                r == 1,
        ;
    }
}

/// Reduces one sample to 24-bit precision: clamps it to [-2^23, 2^23] and
/// rounds it to the nearest multiple of 2^-23, halves away from zero.
pub fn quantize(bits: u32) -> (out: u32)
    ensures
        is_quantized_from(out, bits),
{
    let sign: u32 = bits & SIGN_BIT;
    let a: u32 = bits & UNSIGNED_MASK;
    assert(a == bits % 0x8000_0000 && (sign == 0 || sign == 0x8000_0000) && (sign == 0x8000_0000
        <==> bits >= 0x8000_0000) && bits == sign + a) by (bit_vector)
        requires
            sign == bits & 0x8000_0000,
            a == bits & 0x7fff_ffff,
    ;
    if a > INFINITY {
        return bits;
    }
    if a >= ONE && a < FULL_SCALE {
        proof {
            lemma_whole_values_are_fixed(a);
        }
        return bits;
    }
    let kept: u32 = if a >= FULL_SCALE {
        proof {
            lemma_magnitude_of_full_scale();
            if a < INFINITY && a > FULL_SCALE {
                lemma_magnitude_increases(FULL_SCALE, a);
            }
        }
        FULL_SCALE
    } else if a < 103 * 0x80_0000 {
        proof {
            lemma_tiny_values_vanish(a);
        }
        0
    } else {
        let e: u32 = a >> 23;
        assert(e == a / 0x80_0000) by (bit_vector)
            requires
                e == a >> 23,
        ;
        let sh: u32 = 127 - e;
        let half: u32 = 1u32 << (sh - 1);
        proof {
            lemma_u32_pow2_no_overflow((sh - 1) as nat);
            lemma_u32_pow2_no_overflow(sh as nat);
            lemma_u32_shl_is_mul(1u32, (sh - 1) as u32);
            lemma_pow2_strictly_increases((sh - 1) as nat, 24);
            lemma2_to64();
        }
        let lifted: u32 = (a + half) >> sh;
        proof {
            lemma_u32_shr_is_div((a + half) as u32, sh);
            lemma_pow2_pos(sh as nat);
            lemma_fundamental_div_mod((a + half) as int, pow2(sh as nat) as int);
            lemma_mul_is_commutative(lifted as int, pow2(sh as nat) as int);
            lemma_u32_shl_is_mul(lifted, sh);
        }
        let rounded: u32 = lifted << sh;
        proof {
            lemma_rounded_pattern(a, rounded);
        }
        rounded
    };
    let out: u32 = sign | kept;
    assert(out % 0x8000_0000 == kept && (out >= 0x8000_0000 <==> sign == 0x8000_0000))
        by (bit_vector)
        requires
            out == sign | kept,
            sign == 0 || sign == 0x8000_0000,
            kept < 0x8000_0000,
    ;
    out
}

/// Whether `after` is the block `before` with every sample reduced.
pub open spec fn is_quantized_block(after: Seq<u32>, before: Seq<u32>) -> bool {
    &&& after.len() == before.len()
    &&& forall|i: int| 0 <= i < before.len() ==> is_quantized_from(#[trigger] after[i], before[i])
}

/// Reducing a reduced block changes nothing.
pub proof fn lemma_quantized_block_idempotent(before: Seq<u32>, once: Seq<u32>, twice: Seq<u32>)
    requires
        is_quantized_block(once, before),
        is_quantized_block(twice, once),
    ensures
        twice == once,
{
    assert forall|i: int| 0 <= i < once.len() implies twice[i] == once[i] by {
        lemma_quantized_idempotent(before[i], once[i], twice[i]);
    }
    assert(twice =~= once);
}

/// Reduces every sample of a block to 24-bit precision, in place.
pub fn convert_to_f24_like(vec: &mut Vec<u32>)
    ensures
        is_quantized_block(final(vec)@, old(vec)@),
{
    let n: usize = vec.len();
    let mut i: usize = 0;
    while i < n
        invariant
            i <= n,
            vec@.len() == n,
            old(vec)@.len() == n,
            forall|j: int| 0 <= j < i ==> is_quantized_from(#[trigger] vec@[j], old(vec)@[j]),
            forall|j: int| i <= j < n ==> vec@[j] == old(vec)@[j],
        decreases n - i,
    {
        let reduced: u32 = quantize(vec[i]);
        vec[i] = reduced;
        i += 1;
    }
}

} // verus!
