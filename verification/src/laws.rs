//! Proved laws of the engine.
//!
//! What can be stated exactly of the estimators is proved here: the
//! pathwise put-call parity identity, the sign of the finite-difference
//! delta, and the open-interval guarantee of the uniform stream.  The
//! statistical properties of the estimators — convergence to the
//! analytic price, the size of the Greeks against the closed form, and
//! the variance orderings — are checked by the test suite instead, since
//! they hold only in distribution.

use vstd::prelude::*;

use crate::engine::{
    max0, params_ok, s_chunks, s_delta, s_lane_sum, s_payoff, s_scenario_price, s_spot_triple,
    s_total, OptionKind, SimulationParameters,
};
use crate::fixed::{tdiv, SCALE};
use crate::math::{
    lemma_s_exp_nonneg, lemma_s_times_mono_left, lemma_tdiv_mono, s_exp, s_minus, s_plus, s_times,
    s_times_int,
};
use crate::stream::s_uniform;

verus! {

proof fn lemma_s_payoff_mono_spot(acc: int, a: int, b: int, sstrike: int, drift: int, sidt: int)
    requires
        a <= b,
    ensures
        s_payoff(acc, a, sstrike, drift, sidt) <= s_payoff(acc, b, sstrike, drift, sidt),
{
    let e = s_exp(s_plus(s_times(acc, sidt), drift));
    lemma_s_exp_nonneg(s_plus(s_times(acc, sidt), drift));
    lemma_s_times_mono_left(a, b, e);
}

proof fn lemma_lane_sum_mono_spot(
    seed: Seq<u8>,
    start: int,
    half_steps: int,
    a: int,
    b: int,
    sstrike: int,
    drift: int,
    sidt: int,
    lane: int,
)
    requires
        a <= b,
    ensures
        s_lane_sum(seed, start, half_steps, a, sstrike, drift, sidt, lane) <= s_lane_sum(
            seed,
            start,
            half_steps,
            b,
            sstrike,
            drift,
            sidt,
            lane,
        ),
    decreases lane,
{
    if lane > 0 {
        lemma_lane_sum_mono_spot(seed, start, half_steps, a, b, sstrike, drift, sidt, lane - 1);
        lemma_s_payoff_mono_spot(
            crate::engine::s_path_acc(seed, start, half_steps, lane - 1),
            a,
            b,
            sstrike,
            drift,
            sidt,
        );
    }
}

proof fn lemma_total_mono_spot(
    seed: Seq<u8>,
    pos: int,
    half_steps: int,
    a: int,
    b: int,
    sstrike: int,
    drift: int,
    sidt: int,
    chunks: int,
)
    requires
        a <= b,
    ensures
        s_total(seed, pos, half_steps, a, sstrike, drift, sidt, chunks) <= s_total(
            seed,
            pos,
            half_steps,
            b,
            sstrike,
            drift,
            sidt,
            chunks,
        ),
    decreases chunks,
{
    if chunks > 0 {
        lemma_total_mono_spot(seed, pos, half_steps, a, b, sstrike, drift, sidt, chunks - 1);
        lemma_lane_sum_mono_spot(
            seed,
            pos + 16 * half_steps * (chunks - 1),
            half_steps,
            a,
            b,
            sstrike,
            drift,
            sidt,
            8,
        );
    }
}

proof fn lemma_scenario_price_mono_spot(
    seed: Seq<u8>,
    pos: int,
    half_steps: int,
    chunks: int,
    a: int,
    b: int,
    sstrike: int,
    drift: int,
    sidt: int,
    discount: int,
)
    requires
        a <= b,
        chunks >= 1,
        discount >= 0,
    ensures
        s_scenario_price(seed, pos, half_steps, chunks, a, sstrike, drift, sidt, discount)
            <= s_scenario_price(seed, pos, half_steps, chunks, b, sstrike, drift, sidt, discount),
{
    lemma_total_mono_spot(seed, pos, half_steps, a, b, sstrike, drift, sidt, chunks);
    lemma_tdiv_mono(
        s_total(seed, pos, half_steps, a, sstrike, drift, sidt, chunks),
        s_total(seed, pos, half_steps, b, sstrike, drift, sidt, chunks),
        8 * chunks,
    );
    lemma_s_times_mono_left(
        tdiv(s_total(seed, pos, half_steps, a, sstrike, drift, sidt, chunks), 8 * chunks),
        tdiv(s_total(seed, pos, half_steps, b, sstrike, drift, sidt, chunks), 8 * chunks),
        discount,
    );
}

/// Raising the spot can only raise the simulated call price, so the
/// common-random-numbers call delta is nonnegative: the lower half of
/// the bound `0 <= delta <= 1` for calls.  The upper bound holds only
/// statistically and is checked by the tests.
pub proof fn lemma_call_delta_nonnegative(
    p: SimulationParameters,
    bump: int,
    seed: Seq<u8>,
    pos: int,
)
    requires
        params_ok(p),
        bump > 0,
    ensures
        s_delta(p, OptionKind::Call, bump, seed, pos) >= 0,
{
    let (pm, pc, pp) = s_spot_triple(p, OptionKind::Call, bump, seed, pos);
    let drift = crate::engine::s_drift_total(
        p.volatility@,
        p.risk_free_rate@,
        p.dividend_yield@,
        p.years_to_expiry@,
        p.steps as int,
    );
    let sidt = crate::engine::s_sidt_scaled(p.volatility@, p.years_to_expiry@, p.steps as int);
    let disc = crate::engine::s_discount(p.risk_free_rate@, p.years_to_expiry@);
    lemma_s_exp_nonneg(-s_times(p.risk_free_rate@, p.years_to_expiry@));
    lemma_scenario_price_mono_spot(
        seed,
        pos,
        p.steps as int / 2,
        s_chunks(p.num_trials as int),
        s_minus(p.spot@, bump),
        s_plus(p.spot@, bump),
        p.strike@,
        drift,
        sidt,
        disc,
    );
    assert(pm <= pp);
    assert(s_minus(pp, pm) >= 0);
    assert(s_times_int(bump, 2) > 0);
}

/// Raising the spot can only lower the simulated put price, so the
/// common-random-numbers put delta is nonpositive: the upper half of
/// the bound `-1 <= delta <= 0` for puts.
pub proof fn lemma_put_delta_nonpositive(
    p: SimulationParameters,
    bump: int,
    seed: Seq<u8>,
    pos: int,
)
    requires
        params_ok(p),
        bump > 0,
    ensures
        s_delta(p, OptionKind::Put, bump, seed, pos) <= 0,
{
    let (pm, pc, pp) = s_spot_triple(p, OptionKind::Put, bump, seed, pos);
    let drift = crate::engine::s_drift_total(
        p.volatility@,
        p.risk_free_rate@,
        p.dividend_yield@,
        p.years_to_expiry@,
        p.steps as int,
    );
    let sidt = crate::engine::s_sidt_scaled(p.volatility@, p.years_to_expiry@, p.steps as int);
    let disc = crate::engine::s_discount(p.risk_free_rate@, p.years_to_expiry@);
    lemma_s_exp_nonneg(-s_times(p.risk_free_rate@, p.years_to_expiry@));
    lemma_scenario_price_mono_spot(
        seed,
        pos,
        p.steps as int / 2,
        s_chunks(p.num_trials as int),
        -s_plus(p.spot@, bump),
        -s_minus(p.spot@, bump),
        -p.strike@,
        drift,
        sidt,
        disc,
    );
    assert(pp <= pm);
    assert(s_minus(pp, pm) <= 0);
    assert(s_times_int(bump, 2) > 0);
}

proof fn lemma_s_times_neg_left(a: int, e: int)
    ensures
        s_times(-a, e) == -s_times(a, e),
{
    assert((-a) * e == -(a * e)) by (nonlinear_arith);
}

/// Pathwise put-call parity: over any one simulated path, the call
/// payoff minus the matching put payoff equals the signed forward gap
/// `spot * multiplier - strike` exactly, not just in expectation — the
/// floors of the two payoffs cancel path by path.
pub proof fn lemma_payoff_parity(acc: int, sspot: int, sstrike: int, drift: int, sidt: int)
    ensures
        s_payoff(acc, sspot, sstrike, drift, sidt) - s_payoff(acc, -sspot, -sstrike, drift, sidt)
            == s_minus(s_times(sspot, s_exp(s_plus(s_times(acc, sidt), drift))), sstrike),
{
    let e = s_exp(s_plus(s_times(acc, sidt), drift));
    lemma_s_times_neg_left(sspot, e);
    let d = s_minus(s_times(sspot, e), sstrike);
    assert(s_minus(-s_times(sspot, e), -sstrike) == -d);
    assert(max0(d) - max0(-d) == d);
}

/// The antithetic mirror: pricing a path with the diffusion scale
/// negated is the same as pricing the mirrored path, the one whose
/// accumulated normal sum is negated.  This is what makes the second
/// leg of the antithetic estimator a true mirror image at no extra
/// random draws.
pub proof fn lemma_antithetic_mirror(acc: int, sspot: int, sstrike: int, drift: int, sidt: int)
    ensures
        s_payoff(acc, sspot, sstrike, drift, -sidt) == s_payoff(-acc, sspot, sstrike, drift, sidt),
{
    assert(acc * (-sidt) == (-acc) * sidt) by (nonlinear_arith);
}

/// Every uniform deviate of the stream lies strictly inside the open
/// unit interval: never an exact zero for the logarithm, never an exact
/// one.
pub proof fn lemma_uniform_strictly_inside(w: u64)
    ensures
        1 <= s_uniform(w) < SCALE as int,
{
    vstd::arithmetic::div_mod::lemma_div_is_ordered(w as int, u64::MAX as int, SCALE as int);
    assert((u64::MAX as int) / (SCALE as int) < SCALE as int);
}

} // verus!

