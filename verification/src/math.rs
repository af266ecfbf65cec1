//! Fixed-point elementary functions for the simulation engine.
//!
//! The engine needs a square root, an exponential, a negated logarithm on
//! the open unit interval, and a paired sine/cosine on whole turns.  Each
//! executable function here is proved equal to a spec-level twin that
//! pins the result exactly; the twins are built from the same saturating
//! Q32.32 steps as the code, with the square root characterised by its
//! defining inequalities.  The polynomial degrees are chosen so that the
//! approximation error sits far below the Monte Carlo noise floor.

use vstd::arithmetic::power2::{
    lemma2_to64, lemma_pow2_adds, lemma_pow2_pos, lemma_pow2_strictly_increases, pow2,
};
use vstd::prelude::*;

use crate::fixed::{clamp_val, tdiv, Fixed, MAG_MAX, SCALE};

verus! {

/// ln 2 in Q32.32.
pub const LN2_MAG: u64 = 2977044472;

/// 2*pi in Q32.32.
pub const TWO_PI_MAG: u64 = 26986075409;

/// Inputs at or above this magnitude (the value 22) saturate the exponential.
pub const EXP_HI_MAG: u64 = 94489280512;

/// Inputs at or below minus this magnitude (the value -23) flush the
/// exponential to zero; the true result there is below the smallest
/// representable positive value.
pub const EXP_LO_MAG: u64 = 98784247808;

/// The square of an integer.
pub open spec fn sq(r: int) -> int {
    r * r
}

/// `r` is the integer square root of `x`.
pub open spec fn is_isqrt(x: int, r: int) -> bool {
    0 <= r && sq(r) <= x < sq(r + 1)
}

/// The integer square root: the unique `r >= 0` with
/// `sq(r) <= x < sq(r + 1)`.
pub open spec fn s_sqrt(x: int) -> int {
    choose|r: int| #[trigger] is_isqrt(x, r)
}

proof fn lemma_isqrt_exists(x: nat)
    ensures
        exists|r: int| #[trigger] is_isqrt(x as int, r),
    decreases x,
{
    if x == 0 {
        assert(is_isqrt(0, 0)) by {
            assert(sq(0) == 0 && sq(1) == 1);
        }
    } else {
        lemma_isqrt_exists((x - 1) as nat);
        let p = choose|r: int| #[trigger] is_isqrt(x - 1, r);
        if x < sq(p + 1) {
            assert(is_isqrt(x as int, p));
        } else {
            assert(x == sq(p + 1));
            let q = p + 1;
            assert(sq(q) <= x < sq(q + 1)) by (nonlinear_arith)
                requires
                    q >= 1,
                    x == q * q,
                    sq(q) == q * q,
                    sq(q + 1) == (q + 1) * (q + 1),
            ;
            assert(is_isqrt(x as int, q));
        }
    }
}

proof fn lemma_isqrt_unique(x: int, r1: int, r2: int)
    requires
        0 <= r1,
        r1 * r1 <= x < (r1 + 1) * (r1 + 1),
        0 <= r2,
        r2 * r2 <= x < (r2 + 1) * (r2 + 1),
    ensures
        r1 == r2,
{
    assert(r1 == r2) by (nonlinear_arith)
        requires
            0 <= r1,
            r1 * r1 <= x < (r1 + 1) * (r1 + 1),
            0 <= r2,
            r2 * r2 <= x < (r2 + 1) * (r2 + 1),
    ;
}

/// Ties a witness of the square-root inequalities to [`s_sqrt`].
pub proof fn lemma_s_sqrt_is(x: int, r: int)
    requires
        0 <= r,
        r * r <= x < (r + 1) * (r + 1),
    ensures
        s_sqrt(x) == r,
{
    assert(is_isqrt(x, r)) by {
        assert(sq(r) == r * r && sq(r + 1) == (r + 1) * (r + 1));
    }
    lemma_isqrt_exists(x as nat);
    let w = choose|w: int| #[trigger] is_isqrt(x, w);
    assert(is_isqrt(x, w));
    lemma_isqrt_unique(x, w, r);
}

/// Bit-by-bit integer square root for inputs below `2^96`.
fn isqrt_u128(x: u128) -> (r: u64)
    requires
        x < 0x1_0000_0000_0000_0000_0000_0000,
    ensures
        (r as int) * (r as int) <= x < ((r as int) + 1) * ((r as int) + 1),
        r < 0x1_0000_0000_0000,
{
    let mut r: u64 = 0;
    let mut b: u64 = 0x8000_0000_0000;
    let ghost mut bexp: nat = 47;
    proof {
        assert((0x1_0000_0000_0000 as int) * (0x1_0000_0000_0000 as int)
            == 0x1_0000_0000_0000_0000_0000_0000) by (nonlinear_arith);
        vstd::arithmetic::power2::lemma2_to64_rest();
        assert(b as int == pow2(47));
    }
    while b > 0
        invariant
            x < 0x1_0000_0000_0000_0000_0000_0000,
            (r as int) * (r as int) <= x as int,
            r + 2 * b <= 0x1_0000_0000_0000,
            b > 0 ==> x < ((r + 2 * b) as int) * ((r + 2 * b) as int),
            b == 0 ==> x < ((r as int) + 1) * ((r as int) + 1),
            b == 0 || b as int == pow2(bexp),
        decreases b,
    {
        let cand: u64 = r + b;
        proof {
            assert(((cand as u128) as int) * ((cand as u128) as int)
                <= (0x1_0000_0000_0000 as int) * (0x1_0000_0000_0000 as int)) by (nonlinear_arith)
                requires
                    0 <= cand as int <= 0x1_0000_0000_0000,
            ;
            assert((0x1_0000_0000_0000 as int) * (0x1_0000_0000_0000 as int) <= u128::MAX as int);
        }
        let sq: u128 = (cand as u128) * (cand as u128);
        let taken: bool = sq <= x;
        if taken {
            r = cand;
        }
        proof {
            let rn = r as int;
            let bo = b as int;
            if b == 1 {
                assert(bexp == 0) by {
                    if bexp >= 1 {
                        lemma_pow2_strictly_increases(0, bexp);
                        lemma2_to64();
                    }
                }
                assert(x < (rn + 1) * (rn + 1));
                bexp = 0;
            } else {
                assert(bexp >= 1) by {
                    lemma2_to64();
                }
                assert(b as int == 2 * pow2((bexp - 1) as nat)) by {
                    lemma_pow2_adds(1, (bexp - 1) as nat);
                    lemma2_to64();
                }
                assert(bo / 2 == pow2((bexp - 1) as nat));
                assert(2 * (bo / 2) == bo);
                if taken {
                    assert(x < (rn + 2 * (bo / 2)) * (rn + 2 * (bo / 2)));
                } else {
                    assert(x < (rn + bo) * (rn + bo));
                    assert(x < (rn + 2 * (bo / 2)) * (rn + 2 * (bo / 2)));
                }
                bexp = (bexp - 1) as nat;
            }
        }
        b = b / 2;
    }
    r
}

/// `2^k` as an executable value.
pub fn pow2_u64(k: u32) -> (r: u64)
    requires
        k <= 63,
    ensures
        r as int == pow2(k as nat),
        r >= 1,
{
    let mut r: u64 = 1;
    let mut i: u32 = 0;
    proof {
        lemma2_to64();
    }
    while i < k
        invariant
            i <= k <= 63,
            r as int == pow2(i as nat),
        decreases k - i,
    {
        proof {
            lemma_pow2_strictly_increases(i as nat, 63);
            vstd::arithmetic::power2::lemma2_to64_rest();
            assert(pow2((i + 1) as nat) == pow2(i as nat) * 2) by {
                lemma_pow2_adds(i as nat, 1);
                lemma2_to64();
            }
        }
        r = r * 2;
        i = i + 1;
    }
    proof {
        lemma_pow2_pos(k as nat);
    }
    r
}

/// The square root of a nonnegative value, in Q32.32: the unique integer
/// square root of the magnitude widened by `SCALE`.
pub fn fx_sqrt(x: &Fixed) -> (r: Fixed)
    requires
        x@ >= 0,
    ensures
        r@ == s_sqrt(x@ * (SCALE as int)),
        r@ >= 0,
{
    proof {
        assert((x.mag as int) * (SCALE as int)
            < 0x1_0000_0000_0000_0000_0000_0000) by (nonlinear_arith)
            requires
                x.mag <= u64::MAX,
        ;
        if x.neg {
            assert(x.mag == 0);
        }
    }
    let wide: u128 = (x.mag as u128) * (SCALE as u128);
    let m = isqrt_u128(wide);
    proof {
        lemma_s_sqrt_is(x@ * (SCALE as int), m as int);
    }
    Fixed { neg: false, mag: m }
}

/// Saturating sum, at the spec level.
pub open spec fn s_plus(a: int, b: int) -> int {
    clamp_val(a + b)
}

/// Saturating difference, at the spec level.
pub open spec fn s_minus(a: int, b: int) -> int {
    clamp_val(a - b)
}

/// Saturating truncated product, at the spec level.
pub open spec fn s_times(a: int, b: int) -> int {
    clamp_val(tdiv(a * b, SCALE as int))
}

/// Saturating truncated quotient, at the spec level.
pub open spec fn s_divide(a: int, b: int) -> int
    recommends
        b != 0,
{
    clamp_val(tdiv(a * (SCALE as int), b))
}

/// Saturating product with a whole number, at the spec level.
pub open spec fn s_times_int(a: int, n: int) -> int {
    clamp_val(a * n)
}

// Reciprocal factorials in Q32.32, rounded to nearest.
pub const INV_FACT_2: u64 = 2147483648;

pub const INV_FACT_3: u64 = 715827883;

pub const INV_FACT_4: u64 = 178956971;

pub const INV_FACT_5: u64 = 35791394;

pub const INV_FACT_6: u64 = 5965232;

pub const INV_FACT_7: u64 = 852176;

pub const INV_FACT_8: u64 = 106522;

pub const INV_FACT_9: u64 = 11836;

pub const INV_FACT_10: u64 = 1184;

// Reciprocals of small odd numbers in Q32.32, rounded to nearest.
pub const INV_3: u64 = 1431655765;

pub const INV_5: u64 = 858993459;

pub const INV_7: u64 = 613566757;

pub const INV_9: u64 = 477218588;

pub const INV_11: u64 = 390451572;

/// Taylor polynomial for `e^rem` on `[0, ln 2)`, by Horner's scheme.
pub open spec fn s_exp_poly(rem: int) -> int {
    let h8 = s_plus(s_times(INV_FACT_9 as int, rem), INV_FACT_8 as int);
    let h7 = s_plus(s_times(h8, rem), INV_FACT_7 as int);
    let h6 = s_plus(s_times(h7, rem), INV_FACT_6 as int);
    let h5 = s_plus(s_times(h6, rem), INV_FACT_5 as int);
    let h4 = s_plus(s_times(h5, rem), INV_FACT_4 as int);
    let h3 = s_plus(s_times(h4, rem), INV_FACT_3 as int);
    let h2 = s_plus(s_times(h3, rem), INV_FACT_2 as int);
    let h1 = s_plus(s_times(h2, rem), SCALE as int);
    s_plus(s_times(h1, rem), SCALE as int)
}

/// The exponential: range-reduced by `ln 2`, with the fraction handled by
/// [`s_exp_poly`] and the power of two applied exactly.  Inputs at or
/// above the value 22 saturate; inputs at or below the value -23 flush
/// to zero.
pub open spec fn s_exp(x: int) -> int {
    if x >= EXP_HI_MAG as int {
        MAG_MAX as int
    } else if x <= -(EXP_LO_MAG as int) {
        0
    } else {
        let k = x / (LN2_MAG as int);
        let rem = x % (LN2_MAG as int);
        let p = s_exp_poly(rem);
        if k >= 0 {
            clamp_val(p * pow2(k as nat) as int)
        } else {
            tdiv(p, pow2((-k) as nat) as int)
        }
    }
}

fn exp_poly(rem: &Fixed) -> (p: Fixed)
    ensures
        p@ == s_exp_poly(rem@),
{
    let h8 = Fixed::from_parts(false, INV_FACT_9).times(rem).plus(
        &Fixed::from_parts(false, INV_FACT_8),
    );
    let h7 = h8.times(rem).plus(&Fixed::from_parts(false, INV_FACT_7));
    let h6 = h7.times(rem).plus(&Fixed::from_parts(false, INV_FACT_6));
    let h5 = h6.times(rem).plus(&Fixed::from_parts(false, INV_FACT_5));
    let h4 = h5.times(rem).plus(&Fixed::from_parts(false, INV_FACT_4));
    let h3 = h4.times(rem).plus(&Fixed::from_parts(false, INV_FACT_3));
    let h2 = h3.times(rem).plus(&Fixed::from_parts(false, INV_FACT_2));
    let h1 = h2.times(rem).plus(&Fixed::one());
    h1.times(rem).plus(&Fixed::one())
}

/// The exponential of a Q32.32 value; see [`s_exp`] for the exact result.
pub fn fx_exp(x: &Fixed) -> (r: Fixed)
    ensures
        r@ == s_exp(x@),
        r@ >= 0,
{
    if !x.neg && x.mag >= EXP_HI_MAG {
        return Fixed::from_parts(false, MAG_MAX);
    }
    if x.neg && x.mag >= EXP_LO_MAG {
        return Fixed::zero();
    }
    let kq: u64 = x.mag / LN2_MAG;
    let rq: u64 = x.mag % LN2_MAG;
    proof {
        vstd::arithmetic::div_mod::lemma_div_is_ordered(
            x.mag as int,
            (EXP_LO_MAG - 1) as int,
            LN2_MAG as int,
        );
        assert((EXP_LO_MAG - 1) as int / (LN2_MAG as int) == 33);
    }
    let kneg: bool;
    let kmag: u64;
    let rem: Fixed;
    if !x.neg {
        kneg = false;
        kmag = kq;
        rem = Fixed::from_parts(false, rq);
    } else if rq == 0 {
        kneg = true;
        kmag = kq;
        rem = Fixed::zero();
        proof {
            vstd::arithmetic::div_mod::lemma_fundamental_div_mod_converse(
                x@,
                LN2_MAG as int,
                -(kq as int),
                0,
            );
        }
    } else {
        kneg = true;
        kmag = kq + 1;
        rem = Fixed::from_parts(false, LN2_MAG - rq);
        proof {
            vstd::arithmetic::div_mod::lemma_fundamental_div_mod_converse(
                x@,
                LN2_MAG as int,
                -(kq as int) - 1,
                (LN2_MAG - rq) as int,
            );
        }
    }
    proof {
        if !kneg {
            assert(x@ / (LN2_MAG as int) == kmag as int);
            assert(x@ % (LN2_MAG as int) == rem@);
        } else {
            assert(x@ / (LN2_MAG as int) == -(kmag as int));
            assert(x@ % (LN2_MAG as int) == rem@);
        }
    }
    let p = exp_poly(&rem);
    let pw = pow2_u64(kmag as u32);
    let res = if !kneg {
        p.times_int(pw)
    } else {
        p.divide_int(pw)
    };
    proof {
        let l = LN2_MAG as int;
        let k = x@ / l;
        assert(p@ == s_exp_poly(x@ % l));
        if !kneg {
            assert(k == kmag as int);
            assert(pw as int == pow2(k as nat));
            assert(res@ == clamp_val(p@ * pow2(k as nat) as int));
        } else {
            assert(k == -(kmag as int));
            if k >= 0 {
                assert(kmag == 0);
                assert(pw as int == pow2(0));
                assert(pow2(0) == 1) by {
                    lemma2_to64();
                }
                assert(res@ == tdiv(p@, 1));
                assert(tdiv(p@, 1) == p@) by {
                    if p@ >= 0 {
                        assert(p@ / 1int == p@);
                    } else {
                        assert((-p@) / 1int == -p@);
                    }
                }
                assert(clamp_val(p@ * pow2(0) as int) == p@);
            } else {
                assert(pw as int == pow2((-k) as nat));
                assert(res@ == tdiv(p@, pow2((-k) as nat) as int));
            }
        }
        assert(res@ == s_exp(x@));
    }
    res
}

/// How many doublings bring a magnitude in `[1, SCALE)` up into
/// `[SCALE, 2 * SCALE)`.
pub open spec fn norm_shift(mag: int) -> nat
    decreases 2 * SCALE as int - mag,
{
    if mag < 1 {
        0
    } else if mag >= SCALE as int {
        0
    } else {
        1 + norm_shift(2 * mag)
    }
}

/// `ln` of a normalised magnitude `m` in `[SCALE, 2 * SCALE)`, via the
/// series `ln m = 2 (y + y^3/3 + ... + y^11/11)` with `y = (m-1)/(m+1)`.
pub open spec fn s_ln_norm(m: int) -> int {
    let y = s_divide(m - SCALE as int, m + SCALE as int);
    let t = s_times(y, y);
    let h5 = INV_11 as int;
    let h4 = s_plus(s_times(h5, t), INV_9 as int);
    let h3 = s_plus(s_times(h4, t), INV_7 as int);
    let h2 = s_plus(s_times(h3, t), INV_5 as int);
    let h1 = s_plus(s_times(h2, t), INV_3 as int);
    let h0 = s_plus(s_times(h1, t), SCALE as int);
    s_times_int(s_times(y, h0), 2)
}

/// `-ln u` for `u` strictly inside the unit interval: normalise the
/// magnitude into `[1, 2)` and combine the shift count with [`s_ln_norm`].
pub open spec fn s_neg_ln(u: int) -> int {
    let k = norm_shift(u);
    let m = u * pow2(k) as int;
    s_minus(s_times_int(LN2_MAG as int, k as int), s_ln_norm(m))
}

fn ln_norm(m: u64) -> (r: Fixed)
    requires
        SCALE <= m < 2 * SCALE,
    ensures
        r@ == s_ln_norm(m as int),
{
    let a = Fixed::from_parts(false, m - SCALE);
    let b = Fixed::from_parts(false, m + SCALE);
    let y = a.divide(&b);
    let t = y.times(&y);
    let h5 = Fixed::from_parts(false, INV_11);
    let h4 = h5.times(&t).plus(&Fixed::from_parts(false, INV_9));
    let h3 = h4.times(&t).plus(&Fixed::from_parts(false, INV_7));
    let h2 = h3.times(&t).plus(&Fixed::from_parts(false, INV_5));
    let h1 = h2.times(&t).plus(&Fixed::from_parts(false, INV_3));
    let h0 = h1.times(&t).plus(&Fixed::one());
    y.times(&h0).times_int(2)
}

/// `-ln u` for a uniform deviate `u` strictly between 0 and 1; see
/// [`s_neg_ln`] for the exact result.
pub fn fx_neg_ln(u: &Fixed) -> (r: Fixed)
    requires
        !u.neg,
        1 <= u.mag < SCALE,
    ensures
        r@ == s_neg_ln(u@),
{
    let mut m: u64 = u.mag;
    let mut k: u32 = 0;
    proof {
        lemma2_to64();
    }
    while m < SCALE
        invariant
            1 <= m < 2 * SCALE,
            1 <= u.mag < SCALE,
            m as int == (u.mag as int) * pow2(k as nat),
            norm_shift(u.mag as int) == k + norm_shift(m as int),
            k <= 32,
        decreases 2 * SCALE as int - m,
    {
        proof {
            assert(m as int >= pow2(k as nat)) by (nonlinear_arith)
                requires
                    m as int == (u.mag as int) * pow2(k as nat),
                    u.mag >= 1,
                    pow2(k as nat) >= 0,
            ;
            lemma_pow2_pos(k as nat);
            if k >= 32 {
                lemma_pow2_strictly_increases(31, k as nat);
                lemma2_to64();
                assert(false);
            }
            assert(pow2((k + 1) as nat) == 2 * pow2(k as nat)) by {
                lemma_pow2_adds(k as nat, 1);
                lemma2_to64();
            }
            assert(2 * (m as int) == (u.mag as int) * pow2((k + 1) as nat)) by (nonlinear_arith)
                requires
                    m as int == (u.mag as int) * pow2(k as nat),
                    pow2((k + 1) as nat) == 2 * pow2(k as nat),
            ;
        }
        m = m * 2;
        k = k + 1;
    }
    let lnm = ln_norm(m);
    let kfix = Fixed::from_parts(false, LN2_MAG).times_int(k as u64);
    kfix.minus(&lnm)
}

/// The defining inequalities of [`s_sqrt`], made available to callers.
pub proof fn lemma_s_sqrt_props(x: int)
    requires
        x >= 0,
    ensures
        is_isqrt(x, s_sqrt(x)),
{
    lemma_isqrt_exists(x as nat);
    let w = choose|w: int| #[trigger] is_isqrt(x, w);
    assert(is_isqrt(x, w));
}

/// How many halvings bring a magnitude at or above `2 * SCALE` down
/// into `[SCALE, 2 * SCALE)`.
pub open spec fn norm_shift_down(mag: int) -> nat
    decreases mag,
{
    if mag < 2 * SCALE as int {
        0
    } else {
        1 + norm_shift_down(mag / 2)
    }
}

/// `ln x` for any positive value: values below one reuse the negated
/// logarithm, larger values are halved into `[1, 2)` and the shift count
/// rejoins through `ln 2`.  Each halving truncates one bit, which keeps
/// the relative error below `2^-27`.
pub open spec fn s_ln(x: int) -> int
    recommends
        x >= 1,
{
    if x < SCALE as int {
        -s_neg_ln(x)
    } else {
        let k = norm_shift_down(x);
        let m = x / pow2(k) as int;
        s_plus(s_times_int(LN2_MAG as int, k as int), s_ln_norm(m))
    }
}

/// The natural logarithm of a positive Q32.32 value; see [`s_ln`].
pub fn fx_ln(x: &Fixed) -> (r: Fixed)
    requires
        !x.neg,
        x.mag >= 1,
    ensures
        r@ == s_ln(x@),
{
    if x.mag < SCALE {
        fx_neg_ln(x).neg_val()
    } else {
        let mut m: u64 = x.mag;
        let mut k: u32 = 0;
        proof {
            lemma2_to64();
        }
        while m >= 2 * SCALE
            invariant
                SCALE <= m,
                m as int == (x.mag as int) / pow2(k as nat) as int,
                norm_shift_down(x.mag as int) == k + norm_shift_down(m as int),
                k <= 32,
            decreases m,
        {
            proof {
                lemma_pow2_pos(k as nat);
                assert(pow2((k + 1) as nat) == pow2(k as nat) * 2) by {
                    lemma_pow2_adds(k as nat, 1);
                    lemma2_to64();
                }
                vstd::arithmetic::div_mod::lemma_div_denominator(
                    x.mag as int,
                    pow2(k as nat) as int,
                    2,
                );
                if k >= 32 {
                    assert(pow2(k as nat) >= pow2(32)) by {
                        if k > 32 {
                            lemma_pow2_strictly_increases(32, k as nat);
                        }
                    }
                    lemma2_to64_val();
                    vstd::arithmetic::div_mod::lemma_div_is_ordered_by_denominator(
                        x.mag as int,
                        pow2(32) as int,
                        pow2(k as nat) as int,
                    );
                    assert(m as int <= (x.mag as int) / pow2(32) as int);
                    vstd::arithmetic::div_mod::lemma_div_is_ordered(
                        x.mag as int,
                        u64::MAX as int,
                        pow2(32) as int,
                    );
                    assert(((u64::MAX as int) / (pow2(32) as int)) < 2 * (SCALE as int));
                    assert(false);
                }
            }
            m = m / 2;
            k = k + 1;
        }
        let lnm = ln_norm(m);
        let kfix = Fixed::from_parts(false, LN2_MAG).times_int(k as u64);
        kfix.plus(&lnm)
    }
}

proof fn lemma2_to64_val()
    ensures
        pow2(32) == 0x1_0000_0000,
{
    lemma2_to64();
}

/// Taylor polynomial for the sine on a quarter turn, by Horner's scheme
/// in the squared angle.
pub open spec fn s_sin_quarter(x: int) -> int {
    let t = s_times(x, x);
    let h4 = INV_FACT_9 as int;
    let h3 = s_minus(s_times(h4, t), INV_FACT_7 as int);
    let h2 = s_plus(s_times(h3, t), INV_FACT_5 as int);
    let h1 = s_minus(s_times(h2, t), INV_FACT_3 as int);
    let h0 = s_plus(s_times(h1, t), SCALE as int);
    s_times(x, h0)
}

/// Taylor polynomial for the cosine on a quarter turn, by Horner's scheme
/// in the squared angle.
pub open spec fn s_cos_quarter(x: int) -> int {
    let t = s_times(x, x);
    let h5 = s_minus(INV_FACT_8 as int, s_times(INV_FACT_10 as int, t));
    let h4 = s_minus(s_times(h5, t), INV_FACT_6 as int);
    let h3 = s_plus(s_times(h4, t), INV_FACT_4 as int);
    let h2 = s_minus(s_times(h3, t), INV_FACT_2 as int);
    s_plus(s_times(h2, t), SCALE as int)
}

/// The angle within the quadrant, in radians: the low 30 bits of the
/// turn fraction scaled by `2 * pi`.
pub open spec fn s_quarter_angle(u: int) -> int {
    s_times(u % 0x4000_0000, TWO_PI_MAG as int)
}

/// The sine of a whole-turn fraction `u` in `[0, 1)`.
pub open spec fn s_sin_turn(u: int) -> int {
    let q = u / 0x4000_0000;
    let x = s_quarter_angle(u);
    if q == 0 {
        s_sin_quarter(x)
    } else if q == 1 {
        s_cos_quarter(x)
    } else if q == 2 {
        -s_sin_quarter(x)
    } else {
        -s_cos_quarter(x)
    }
}

/// The cosine of a whole-turn fraction `u` in `[0, 1)`.
pub open spec fn s_cos_turn(u: int) -> int {
    let q = u / 0x4000_0000;
    let x = s_quarter_angle(u);
    if q == 0 {
        s_cos_quarter(x)
    } else if q == 1 {
        -s_sin_quarter(x)
    } else if q == 2 {
        -s_cos_quarter(x)
    } else {
        s_sin_quarter(x)
    }
}

/// The sine and cosine of a whole-turn fraction in `[0, 1)`: the quadrant
/// comes from the top two bits, the rest feeds the quarter-turn
/// polynomials; see [`s_sin_turn`] and [`s_cos_turn`].
pub fn fx_sin_cos(u: &Fixed) -> (r: (Fixed, Fixed))
    requires
        !u.neg,
        u.mag < SCALE,
    ensures
        r.0@ == s_sin_turn(u@),
        r.1@ == s_cos_turn(u@),
{
    let q: u64 = u.mag / 0x4000_0000;
    let frac: u64 = u.mag % 0x4000_0000;
    let x = Fixed::from_parts(false, frac).times(&Fixed::from_parts(false, TWO_PI_MAG));
    let t = x.times(&x);
    let s_h4 = Fixed::from_parts(false, INV_FACT_9);
    let s_h3 = s_h4.times(&t).minus(&Fixed::from_parts(false, INV_FACT_7));
    let s_h2 = s_h3.times(&t).plus(&Fixed::from_parts(false, INV_FACT_5));
    let s_h1 = s_h2.times(&t).minus(&Fixed::from_parts(false, INV_FACT_3));
    let s_h0 = s_h1.times(&t).plus(&Fixed::one());
    let sinq = x.times(&s_h0);
    let c_h5 = Fixed::from_parts(false, INV_FACT_8).minus(
        &Fixed::from_parts(false, INV_FACT_10).times(&t),
    );
    let c_h4 = c_h5.times(&t).minus(&Fixed::from_parts(false, INV_FACT_6));
    let c_h3 = c_h4.times(&t).plus(&Fixed::from_parts(false, INV_FACT_4));
    let c_h2 = c_h3.times(&t).minus(&Fixed::from_parts(false, INV_FACT_2));
    let cosq = c_h2.times(&t).plus(&Fixed::one());
    if q == 0 {
        (sinq, cosq)
    } else if q == 1 {
        (cosq, sinq.neg_val())
    } else if q == 2 {
        (sinq.neg_val(), cosq.neg_val())
    } else {
        (cosq.neg_val(), sinq)
    }
}

pub proof fn lemma_tdiv_mono(x: int, y: int, d: int)
    requires
        x <= y,
        d > 0,
    ensures
        tdiv(x, d) <= tdiv(y, d),
{
    if x >= 0 {
        vstd::arithmetic::div_mod::lemma_div_is_ordered(x, y, d);
    } else if y >= 0 {
        assert((-x) / d >= 0);
        assert(y / d >= 0);
    } else {
        vstd::arithmetic::div_mod::lemma_div_is_ordered(-y, -x, d);
    }
}

pub proof fn lemma_s_times_mono_left(a: int, b: int, e: int)
    requires
        a <= b,
        e >= 0,
    ensures
        s_times(a, e) <= s_times(b, e),
{
    assert(a * e <= b * e) by (nonlinear_arith)
        requires
            a <= b,
            e >= 0,
    ;
    lemma_tdiv_mono(a * e, b * e, SCALE as int);
}

pub proof fn lemma_s_times_nonneg(a: int, b: int)
    requires
        a >= 0,
        b >= 0,
    ensures
        s_times(a, b) >= 0,
{
    assert(a * b >= 0) by (nonlinear_arith)
        requires
            a >= 0,
            b >= 0,
    ;
}

pub proof fn lemma_s_exp_poly_nonneg(rem: int)
    requires
        rem >= 0,
    ensures
        s_exp_poly(rem) >= 0,
{
    let h8 = s_plus(s_times(INV_FACT_9 as int, rem), INV_FACT_8 as int);
    lemma_s_times_nonneg(INV_FACT_9 as int, rem);
    let h7 = s_plus(s_times(h8, rem), INV_FACT_7 as int);
    lemma_s_times_nonneg(h8, rem);
    let h6 = s_plus(s_times(h7, rem), INV_FACT_6 as int);
    lemma_s_times_nonneg(h7, rem);
    let h5 = s_plus(s_times(h6, rem), INV_FACT_5 as int);
    lemma_s_times_nonneg(h6, rem);
    let h4 = s_plus(s_times(h5, rem), INV_FACT_4 as int);
    lemma_s_times_nonneg(h5, rem);
    let h3 = s_plus(s_times(h4, rem), INV_FACT_3 as int);
    lemma_s_times_nonneg(h4, rem);
    let h2 = s_plus(s_times(h3, rem), INV_FACT_2 as int);
    lemma_s_times_nonneg(h3, rem);
    let h1 = s_plus(s_times(h2, rem), SCALE as int);
    lemma_s_times_nonneg(h2, rem);
    lemma_s_times_nonneg(h1, rem);
}

/// The exponential never returns a negative value.
pub proof fn lemma_s_exp_nonneg(x: int)
    ensures
        s_exp(x) >= 0,
{
    if x >= EXP_HI_MAG as int {
    } else if x <= -(EXP_LO_MAG as int) {
    } else {
        let k = x / (LN2_MAG as int);
        let rem = x % (LN2_MAG as int);
        lemma_s_exp_poly_nonneg(rem);
        let p = s_exp_poly(rem);
        if k >= 0 {
            vstd::arithmetic::power2::lemma_pow2_pos(k as nat);
            assert(p * vstd::arithmetic::power2::pow2(k as nat) as int >= 0) by (nonlinear_arith)
                requires
                    p >= 0,
                    vstd::arithmetic::power2::pow2(k as nat) as int >= 0,
            ;
        } else {
            vstd::arithmetic::power2::lemma_pow2_pos((-k) as nat);
        }
    }
}

} // verus!
