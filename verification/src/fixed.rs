//! Fixed-point scalar arithmetic.
//!
//! A scalar is an `i64` count of raw units, with one whole unit equal to
//! `FX_SCALE` raw units. Results that would leave the representable range
//! saturate at `FX_RAW_MAX` / `FX_RAW_MIN`; the range is symmetric so that
//! negation is total and exact. Multiplication and division truncate toward
//! zero, as the sign-and-magnitude definitions below state.

use vstd::prelude::*;

verus! {

/// Raw units per whole unit.
pub const FX_SCALE: i64 = 1_000_000;

/// Largest raw value a scalar may hold.
pub const FX_RAW_MAX: i64 = 9_223_372_036_854_775_807;

/// Smallest raw value a scalar may hold; the negation of `FX_RAW_MAX`,
/// so the range is symmetric.
pub const FX_RAW_MIN: i64 = -9_223_372_036_854_775_807;

/// A fixed-point scalar: `raw` counts of `1 / FX_SCALE`.
#[derive(Clone, Copy, Debug, PartialEq, Eq, Structural)]
pub struct Fx {
    pub raw: i64,
}

/// Saturation of a mathematical integer into the symmetric raw range.
pub open spec fn fx_clip(x: int) -> int {
    if x > FX_RAW_MAX as int {
        FX_RAW_MAX as int
    } else if x < FX_RAW_MIN as int {
        FX_RAW_MIN as int
    } else {
        x
    }
}

/// Absolute value of a mathematical integer.
pub open spec fn fx_abs_int(x: int) -> int {
    if x < 0 {
        -x
    } else {
        x
    }
}

/// A scalar holding exactly the clipped value `x`.
pub open spec fn fx(x: int) -> Fx {
    Fx { raw: fx_clip(x) as i64 }
}

/// The sum of two scalars, saturated.
pub open spec fn fx_add_spec(a: Fx, b: Fx) -> Fx {
    fx(a.raw + b.raw)
}

/// The difference of two scalars, saturated.
pub open spec fn fx_sub_spec(a: Fx, b: Fx) -> Fx {
    fx(a.raw - b.raw)
}

/// The negation of a scalar, saturated (total thanks to the symmetric range).
pub open spec fn fx_neg_spec(a: Fx) -> Fx {
    fx(-a.raw)
}

/// The product of two scalars: magnitudes multiplied, rescaled by
/// truncating division, sign restored, then saturated.
pub open spec fn fx_mul_spec(a: Fx, b: Fx) -> Fx {
    let m = (fx_abs_int(a.raw as int) * fx_abs_int(b.raw as int)) / (FX_SCALE as int);
    if (a.raw < 0) != (b.raw < 0) {
        fx(-m)
    } else {
        fx(m)
    }
}

/// The quotient of two scalars, truncating toward zero; division by zero
/// yields zero (per-frame numeric edge cases degrade gracefully).
pub open spec fn fx_div_spec(a: Fx, b: Fx) -> Fx {
    if b.raw == 0 {
        Fx { raw: 0 }
    } else {
        let m = (fx_abs_int(a.raw as int) * (FX_SCALE as int)) / fx_abs_int(b.raw as int);
        if (a.raw < 0) != (b.raw < 0) {
            fx(-m)
        } else {
            fx(m)
        }
    }
}

/// Saturates an `i128` intermediate into the raw range.
fn clip_i128(x: i128) -> (r: i64)
    ensures
        r as int == fx_clip(x as int),
{
    if x > FX_RAW_MAX as i128 {
        FX_RAW_MAX
    } else if x < FX_RAW_MIN as i128 {
        FX_RAW_MIN
    } else {
        x as i64
    }
}

/// Magnitude of a raw value as an unsigned wide integer.
fn abs_u128(x: i64) -> (r: u128)
    ensures
        r as int == fx_abs_int(x as int),
{
    if x < 0 {
        (-(x as i128)) as u128
    } else {
        x as u128
    }
}

/// Rebuilds a scalar from a magnitude and a sign, saturating.
fn fx_from_mag(p: u128, neg: bool) -> (r: Fx)
    ensures
        r == if neg { fx(-(p as int)) } else { fx(p as int) },
{
    if p > FX_RAW_MAX as u128 {
        if neg {
            Fx { raw: FX_RAW_MIN }
        } else {
            Fx { raw: FX_RAW_MAX }
        }
    } else if neg {
        Fx { raw: -(p as i64) }
    } else {
        Fx { raw: p as i64 }
    }
}

/// Saturating addition.
pub fn fx_add(a: Fx, b: Fx) -> (r: Fx)
    ensures
        r == fx_add_spec(a, b),
{
    let s: i128 = a.raw as i128 + b.raw as i128;
    Fx { raw: clip_i128(s) }
}

/// Saturating subtraction.
pub fn fx_sub(a: Fx, b: Fx) -> (r: Fx)
    ensures
        r == fx_sub_spec(a, b),
{
    let s: i128 = a.raw as i128 - b.raw as i128;
    Fx { raw: clip_i128(s) }
}

/// Saturating negation.
pub fn fx_neg(a: Fx) -> (r: Fx)
    ensures
        r == fx_neg_spec(a),
{
    let s: i128 = -(a.raw as i128);
    Fx { raw: clip_i128(s) }
}

/// Saturating fixed-point multiplication.
pub fn fx_mul(a: Fx, b: Fx) -> (r: Fx)
    ensures
        r == fx_mul_spec(a, b),
{
    let ma = abs_u128(a.raw);
    let mb = abs_u128(b.raw);
    proof {
        assert(ma <= 0x8000_0000_0000_0000u128 && mb <= 0x8000_0000_0000_0000u128 ==> ma * mb
            <= 0x8000_0000_0000_0000u128 * 0x8000_0000_0000_0000u128) by (nonlinear_arith);
    }
    let p = (ma * mb) / (FX_SCALE as u128);
    fx_from_mag(p, (a.raw < 0) != (b.raw < 0))
}

/// Saturating fixed-point division; division by zero yields zero.
pub fn fx_div(a: Fx, b: Fx) -> (r: Fx)
    ensures
        r == fx_div_spec(a, b),
{
    if b.raw == 0 {
        return Fx { raw: 0 };
    }
    let ma = abs_u128(a.raw);
    let mb = abs_u128(b.raw);
    proof {
        assert(ma <= 0x8000_0000_0000_0000u128 ==> ma * (FX_SCALE as u128)
            <= 0x8000_0000_0000_0000u128 * 0x1000_0000u128) by (nonlinear_arith);
    }
    let p = (ma * (FX_SCALE as u128)) / mb;
    fx_from_mag(p, (a.raw < 0) != (b.raw < 0))
}

/// The smaller of two scalars.
pub fn fx_min(a: Fx, b: Fx) -> (r: Fx)
    ensures
        r == if a.raw <= b.raw { a } else { b },
{
    if a.raw <= b.raw {
        a
    } else {
        b
    }
}

/// The larger of two scalars.
pub fn fx_max(a: Fx, b: Fx) -> (r: Fx)
    ensures
        r == if a.raw >= b.raw { a } else { b },
{
    if a.raw >= b.raw {
        a
    } else {
        b
    }
}

/// Remainder of a non-negative scalar by a positive one.
pub fn fx_rem_pos(a: Fx, b: Fx) -> (r: Fx)
    requires
        a.raw >= 0,
        b.raw > 0,
    ensures
        r.raw as int == (a.raw as int) % (b.raw as int),
        0 <= r.raw < b.raw,
{
    let r = (a.raw as u64) % (b.raw as u64);
    Fx { raw: r as i64 }
}

/// Remainder truncated toward zero: the magnitude of `a` reduced
/// modulo `b`, keeping `a`'s sign; a non-positive divisor yields zero.
pub open spec fn fx_rem_trunc_spec(a: Fx, b: Fx) -> Fx {
    if b.raw <= 0 {
        Fx { raw: 0 }
    } else if a.raw >= 0 {
        Fx { raw: ((a.raw as int) % (b.raw as int)) as i64 }
    } else {
        Fx { raw: (-(fx_abs_int(a.raw as int) % (b.raw as int))) as i64 }
    }
}

/// Truncated remainder; a non-positive divisor yields zero.
pub fn fx_rem_trunc(a: Fx, b: Fx) -> (r: Fx)
    ensures
        r == fx_rem_trunc_spec(a, b),
{
    if b.raw <= 0 {
        return Fx { raw: 0 };
    }
    if a.raw >= 0 {
        let m = (a.raw as u64) % (b.raw as u64);
        Fx { raw: m as i64 }
    } else {
        let mag = if a.raw == i64::MIN {
            9_223_372_036_854_775_808u64
        } else {
            (-a.raw) as u64
        };
        let m = mag % (b.raw as u64);
        Fx { raw: -(m as i64) }
    }
}

/// The zero scalar.
pub fn fx_zero() -> (r: Fx)
    ensures
        r.raw == 0,
{
    Fx { raw: 0 }
}

/// The scalar one.
pub fn fx_one() -> (r: Fx)
    ensures
        r.raw == FX_SCALE,
{
    Fx { raw: FX_SCALE }
}

/// Builds a scalar from a raw unit count.
pub fn fx_from_raw(raw: i64) -> (r: Fx)
    ensures
        r.raw == raw,
{
    Fx { raw }
}

/// Multiplication flips sign with its second operand (which must be
/// negatable exactly).
pub proof fn lemma_fx_mul_neg(a: Fx, b: Fx)
    requires
        b.raw > i64::MIN,
    ensures
        fx_mul_spec(a, fx_neg_spec(b)) == fx_neg_spec(fx_mul_spec(a, b)),
{
    let nb = fx_neg_spec(b);
    assert(nb.raw == -b.raw);
    assert(fx_abs_int(nb.raw as int) == fx_abs_int(b.raw as int));
    assert(fx_abs_int(a.raw as int) >= 0 && fx_abs_int(b.raw as int) >= 0);
    assert(fx_abs_int(a.raw as int) * fx_abs_int(b.raw as int) >= 0) by (nonlinear_arith)
        requires
            fx_abs_int(a.raw as int) >= 0,
            fx_abs_int(b.raw as int) >= 0,
    ;
    vstd::arithmetic::div_mod::lemma_div_pos_is_pos(
        fx_abs_int(a.raw as int) * fx_abs_int(b.raw as int),
        FX_SCALE as int,
    );
    let m = (fx_abs_int(a.raw as int) * fx_abs_int(b.raw as int)) / (FX_SCALE as int);
    assert(m >= 0);
    if b.raw == 0 {
        assert(fx_abs_int(b.raw as int) == 0);
        assert(fx_abs_int(a.raw as int) * 0 == 0) by (nonlinear_arith);
        vstd::arithmetic::div_mod::lemma_div_of0(FX_SCALE as int);
        assert(m == 0);
        assert(fx_mul_spec(a, nb) == fx(0));
        assert(fx_neg_spec(fx_mul_spec(a, b)) == fx(0));
    } else {
        assert((a.raw < 0) != (nb.raw < 0) <==> !((a.raw < 0) != (b.raw < 0)));
        if (a.raw < 0) != (b.raw < 0) {
            assert(fx_mul_spec(a, b) == fx(-m));
            assert(fx_mul_spec(a, nb) == fx(m));
            assert(fx_neg_spec(fx(-m)) == fx(m));
        } else {
            assert(fx_mul_spec(a, b) == fx(m));
            assert(fx_mul_spec(a, nb) == fx(-m));
            assert(fx_neg_spec(fx(m)) == fx(-m));
        }
    }
}

/// Multiplication does not depend on operand order.
pub proof fn lemma_fx_mul_comm(a: Fx, b: Fx)
    ensures
        fx_mul_spec(a, b) == fx_mul_spec(b, a),
{
    assert(fx_abs_int(a.raw as int) * fx_abs_int(b.raw as int) == fx_abs_int(b.raw as int)
        * fx_abs_int(a.raw as int)) by (nonlinear_arith);
}

/// Multiplication flips sign with its first operand too.
pub proof fn lemma_fx_mul_neg_first(a: Fx, b: Fx)
    requires
        a.raw > i64::MIN,
    ensures
        fx_mul_spec(fx_neg_spec(a), b) == fx_neg_spec(fx_mul_spec(a, b)),
{
    lemma_fx_mul_comm(fx_neg_spec(a), b);
    lemma_fx_mul_neg(b, a);
    lemma_fx_mul_comm(b, a);
}

/// Subtraction of two negated scalars is the negated difference, when
/// both operands are negatable exactly.
pub proof fn lemma_fx_sub_neg(a: Fx, b: Fx)
    requires
        a.raw > i64::MIN,
        b.raw > i64::MIN,
    ensures
        fx_sub_spec(fx_neg_spec(a), fx_neg_spec(b)) == fx_neg_spec(fx_sub_spec(a, b)),
{
}

/// Division flips sign with its numerator, when it is negatable
/// exactly.
pub proof fn lemma_fx_div_neg(a: Fx, b: Fx)
    requires
        a.raw > i64::MIN,
    ensures
        fx_div_spec(fx_neg_spec(a), b) == fx_neg_spec(fx_div_spec(a, b)),
{
    let na = fx_neg_spec(a);
    assert(na.raw == -a.raw);
    assert(fx_abs_int(na.raw as int) == fx_abs_int(a.raw as int));
    if b.raw != 0 {
        assert(fx_abs_int(a.raw as int) >= 0 && fx_abs_int(b.raw as int) > 0);
        assert(fx_abs_int(a.raw as int) * (FX_SCALE as int) >= 0) by (nonlinear_arith)
            requires
                fx_abs_int(a.raw as int) >= 0,
        ;
        vstd::arithmetic::div_mod::lemma_div_pos_is_pos(
            fx_abs_int(a.raw as int) * (FX_SCALE as int),
            fx_abs_int(b.raw as int),
        );
        let m = (fx_abs_int(a.raw as int) * (FX_SCALE as int)) / fx_abs_int(b.raw as int);
        assert(m >= 0);
        if a.raw == 0 {
            assert(fx_abs_int(a.raw as int) == 0);
            assert(0int * (FX_SCALE as int) == 0) by (nonlinear_arith);
            vstd::arithmetic::div_mod::lemma_div_of0(fx_abs_int(b.raw as int));
            assert(m == 0);
            assert(fx_div_spec(na, b) == fx(0));
            assert(fx_neg_spec(fx_div_spec(a, b)) == fx(0));
        } else {
            assert((na.raw < 0) != (b.raw < 0) <==> !((a.raw < 0) != (b.raw < 0)));
            if (a.raw < 0) != (b.raw < 0) {
                assert(fx_div_spec(a, b) == fx(-m));
                assert(fx_div_spec(na, b) == fx(m));
                assert(fx_neg_spec(fx(-m)) == fx(m));
            } else {
                assert(fx_div_spec(a, b) == fx(m));
                assert(fx_div_spec(na, b) == fx(-m));
                assert(fx_neg_spec(fx(m)) == fx(-m));
            }
        }
    }
}

/// Addition of two negated scalars is the negated sum, when both
/// operands are negatable exactly.
pub proof fn lemma_fx_add_neg(a: Fx, b: Fx)
    requires
        a.raw > i64::MIN,
        b.raw > i64::MIN,
    ensures
        fx_add_spec(fx_neg_spec(a), fx_neg_spec(b)) == fx_neg_spec(fx_add_spec(a, b)),
{
}

/// The scalar forced into the unit interval.
pub open spec fn fx_clamp01_spec(a: Fx) -> Fx {
    if a.raw < 0 {
        Fx { raw: 0 }
    } else if a.raw > FX_SCALE {
        Fx { raw: FX_SCALE }
    } else {
        a
    }
}

/// Clamps a scalar into the unit interval.
pub fn fx_clamp01(a: Fx) -> (r: Fx)
    ensures
        r == fx_clamp01_spec(a),
{
    if a.raw < 0 {
        Fx { raw: 0 }
    } else if a.raw > FX_SCALE {
        Fx { raw: FX_SCALE }
    } else {
        a
    }
}

/// Whether `r` is the floor of the square root of `x`.
pub open spec fn is_sqrt_floor(x: int, r: int) -> bool {
    &&& r >= 0
    &&& r * r <= x
    &&& x < (r + 1) * (r + 1)
}

/// The floor of the square root, as the unique value meeting
/// `is_sqrt_floor`.
pub open spec fn sqrt_floor(x: int) -> int {
    choose|r: int| is_sqrt_floor(x, r)
}

/// The floor square root is unique, so any witness equals `sqrt_floor`.
pub proof fn lemma_sqrt_floor_unique(x: int, r: int)
    requires
        is_sqrt_floor(x, r),
    ensures
        sqrt_floor(x) == r,
{
    let c = choose|r2: int| is_sqrt_floor(x, r2);
    assert(is_sqrt_floor(x, c));
    assert(c == r) by (nonlinear_arith)
        requires
            is_sqrt_floor(x, c),
            is_sqrt_floor(x, r),
    ;
}

/// The square root of a scalar: the floor of the root of
/// `raw * FX_SCALE`, so that whole units map to whole units exactly;
/// zero on non-positive arguments.
pub open spec fn fx_sqrt_spec(a: Fx) -> Fx {
    if a.raw <= 0 {
        Fx { raw: 0 }
    } else {
        Fx { raw: sqrt_floor(a.raw * FX_SCALE) as i64 }
    }
}

/// Floor of the square root of a wide unsigned integer, by bisection.
fn isqrt_u128(x: u128) -> (r: u128)
    ensures
        is_sqrt_floor(x as int, r as int),
{
    if x == 0 {
        return 0;
    }
    let mut lo: u128 = 0;
    let mut hi: u128 = 0x1_0000_0000_0000_0000u128;
    proof {
        assert((0x1_0000_0000_0000_0000u128 as int) * (0x1_0000_0000_0000_0000u128 as int)
            > u128::MAX as int) by (nonlinear_arith);
    }
    while lo + 1 < hi
        invariant
            lo < hi,
            hi <= 0x1_0000_0000_0000_0000u128,
            (lo as int) * (lo as int) <= x as int,
            (x as int) < (hi as int) * (hi as int),
        decreases hi - lo,
    {
        let mid = lo + (hi - lo) / 2;
        proof {
            assert((mid as int) * (mid as int) < (0x1_0000_0000_0000_0000u128 as int)
                * (0x1_0000_0000_0000_0000u128 as int)) by (nonlinear_arith)
                requires mid < 0x1_0000_0000_0000_0000u128;
        }
        if mid * mid <= x {
            lo = mid;
        } else {
            hi = mid;
        }
    }
    lo
}

/// Square root of a non-negative scalar; a non-positive argument yields
/// zero.
pub fn fx_sqrt(a: Fx) -> (r: Fx)
    ensures
        r == fx_sqrt_spec(a),
        r.raw >= 0,
{
    if a.raw <= 0 {
        return Fx { raw: 0 };
    }
    let wide: u128 = (a.raw as u128) * (FX_SCALE as u128);
    let root = isqrt_u128(wide);
    proof {
        assert(root < 0x8000_0000_0000u128) by (nonlinear_arith)
            requires
                root as int * (root as int) <= wide as int,
                wide as int <= 0x8000_0000_0000_0000i128 as int * 0x1000_0000i128 as int,
        ;
        lemma_sqrt_floor_unique(wide as int, root as int);
    }
    Fx { raw: root as i64 }
}

} // verus!
