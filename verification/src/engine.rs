//! The Monte Carlo pricing engine.
//!
//! Trials are partitioned into lanes of eight parallel paths.  Each path
//! accumulates `steps / 2` Box-Muller pairs of normal increments — two
//! uniform draws give a radius and an angle whose sine and cosine are
//! consumed together — and one exponential per path turns the
//! accumulated sum into the terminal price multiplier.  A single
//! simulated set of paths prices every bumped scenario of a request at
//! once (common random numbers), which is what the finite-difference
//! Greek estimators rely on to cancel simulation noise.
//!
//! Trial counts that are not a multiple of the lane width are padded up
//! to the next full lane: the padded trials are simulated like any
//! others and the average is taken over the padded count.  Step counts
//! must be even, so that every step is covered by a Box-Muller pair;
//! odd counts are rejected rather than silently truncated.

use vstd::prelude::*;

use crate::fixed::{tdiv, Fixed, SCALE};
use crate::math::{
    fx_exp, fx_neg_ln, fx_sin_cos, fx_sqrt, s_cos_turn, s_divide, s_exp, s_minus, s_neg_ln, s_plus,
    s_sin_turn,
    s_sqrt, s_times, s_times_int,
};
use crate::stream::{next_uniform, rng_pos, rng_seed, s_uniform, stream_word};

verus! {

/// Number of paths simulated side by side in one batch.
pub const LANE_WIDTH: u32 = 8;

/// Largest accepted step count per path.
pub const STEPS_MAX: u32 = 1_000_000;

/// Largest accepted trial count per pricing call.
pub const TRIALS_MAX: u32 = 16_777_216;

/// The inputs of one pricing call.
#[derive(Clone, Copy, Debug)]
pub struct SimulationParameters {
    pub spot: Fixed,
    pub strike: Fixed,
    pub volatility: Fixed,
    pub risk_free_rate: Fixed,
    pub years_to_expiry: Fixed,
    pub dividend_yield: Fixed,
    pub steps: u32,
    pub num_trials: u32,
}

/// Why a pricing call rejected its inputs before simulating.
#[derive(Clone, Copy, Debug, PartialEq, Eq, Structural)]
pub enum ParamError {
    /// The spot price must be strictly positive.
    InvalidSpot,
    /// The strike must be strictly positive.
    InvalidStrike,
    /// The volatility must be nonnegative.
    InvalidVolatility,
    /// The time to expiry must be strictly positive.
    InvalidExpiry,
    /// The step count must be even and between 1 and [`STEPS_MAX`].
    InvalidSteps,
    /// The trial count must be between 1 and [`TRIALS_MAX`].
    InvalidTrials,
    /// A finite-difference bump must be strictly positive.
    InvalidBump,
}

pub open spec fn spot_ok(p: SimulationParameters) -> bool {
    p.spot@ > 0
}

pub open spec fn strike_ok(p: SimulationParameters) -> bool {
    p.strike@ > 0
}

pub open spec fn volatility_ok(p: SimulationParameters) -> bool {
    p.volatility@ >= 0
}

pub open spec fn expiry_ok(p: SimulationParameters) -> bool {
    p.years_to_expiry@ > 0
}

pub open spec fn steps_ok(p: SimulationParameters) -> bool {
    1 <= p.steps <= STEPS_MAX && p.steps % 2 == 0
}

pub open spec fn trials_ok(p: SimulationParameters) -> bool {
    1 <= p.num_trials <= TRIALS_MAX
}

/// All degenerate-input checks together: what a pricing call demands
/// before it consumes any randomness.
pub open spec fn params_ok(p: SimulationParameters) -> bool {
    spot_ok(p) && strike_ok(p) && volatility_ok(p) && expiry_ok(p) && steps_ok(p) && trials_ok(p)
}

/// Reject degenerate inputs, naming the first offending field in the
/// order spot, strike, volatility, expiry, steps, trials.
pub fn validate(p: &SimulationParameters) -> (r: Result<(), ParamError>)
    ensures
        r is Ok <==> params_ok(*p),
        r == Err::<(), ParamError>(ParamError::InvalidSpot) <==> !spot_ok(*p),
        r == Err::<(), ParamError>(ParamError::InvalidStrike) <==> spot_ok(*p) && !strike_ok(*p),
        r == Err::<(), ParamError>(ParamError::InvalidVolatility) <==> spot_ok(*p) && strike_ok(*p)
            && !volatility_ok(*p),
        r == Err::<(), ParamError>(ParamError::InvalidExpiry) <==> spot_ok(*p) && strike_ok(*p)
            && volatility_ok(*p) && !expiry_ok(*p),
        r == Err::<(), ParamError>(ParamError::InvalidSteps) <==> spot_ok(*p) && strike_ok(*p)
            && volatility_ok(*p) && expiry_ok(*p) && !steps_ok(*p),
        r == Err::<(), ParamError>(ParamError::InvalidTrials) <==> spot_ok(*p) && strike_ok(*p)
            && volatility_ok(*p) && expiry_ok(*p) && steps_ok(*p) && !trials_ok(*p),
{
    if p.spot.neg || p.spot.mag == 0 {
        Err(ParamError::InvalidSpot)
    } else if p.strike.neg || p.strike.mag == 0 {
        Err(ParamError::InvalidStrike)
    } else if p.volatility.neg && p.volatility.mag > 0 {
        Err(ParamError::InvalidVolatility)
    } else if p.years_to_expiry.neg || p.years_to_expiry.mag == 0 {
        Err(ParamError::InvalidExpiry)
    } else if p.steps < 1 || p.steps > STEPS_MAX || p.steps % 2 != 0 {
        Err(ParamError::InvalidSteps)
    } else if p.num_trials < 1 || p.num_trials > TRIALS_MAX {
        Err(ParamError::InvalidTrials)
    } else {
        Ok(())
    }
}

/// One scenario priced over the shared simulated paths: the payoff sign
/// convention folds calls and puts into one code path, with `signed_spot`
/// and `signed_strike` negated for a put.
#[derive(Clone, Copy, Debug)]
pub struct PayoffConfig {
    pub signed_spot: Fixed,
    pub signed_strike: Fixed,
    pub drift_total: Fixed,
    pub sidt_scaled: Fixed,
}

/// The larger of an integer and zero.
pub open spec fn max0(x: int) -> int {
    if x > 0 {
        x
    } else {
        0
    }
}

/// The Box-Muller transform of two uniform deviates, with the two
/// resulting normal components already combined: radius `sqrt(-ln u1)`
/// times `sin + cos` of the angle `2 pi u2`.  A negative rounding
/// residue of the logarithm near `u1 = 1` is floored to zero before the
/// square root.
pub open spec fn s_box_muller(u1: int, u2: int) -> int {
    let nl = s_neg_ln(u1);
    let radius = s_sqrt(max0(nl) * (SCALE as int));
    s_times(radius, s_plus(s_sin_turn(u2), s_cos_turn(u2)))
}

/// One path's normal increment from a Box-Muller pair of stream words.
pub open spec fn s_normal_inc(w1: u64, w2: u64) -> int {
    s_box_muller(s_uniform(w1), s_uniform(w2))
}

/// The Box-Muller step: turn a radius deviate and an angle deviate,
/// both strictly inside the unit interval, into the combined pair of
/// normal increments; see [`s_box_muller`].
pub fn box_muller(u1: &Fixed, u2: &Fixed) -> (inc: Fixed)
    requires
        !u1.neg,
        1 <= u1.mag < SCALE,
        !u2.neg,
        u2.mag < SCALE,
    ensures
        inc@ == s_box_muller(u1@, u2@),
{
    let nl = fx_neg_ln(u1);
    let radius = fx_sqrt(&nl.max_zero());
    let (sn, cs) = fx_sin_cos(u2);
    radius.times(&sn.plus(&cs))
}

/// The accumulated normal sum of one lane after `half_steps` Box-Muller
/// iterations, for the chunk whose draws begin at stream position
/// `start`: iteration `s` consumes words `start + 16 s .. start + 16 s + 16`,
/// the first eight as radii, the next eight as angles.
pub open spec fn s_path_acc(seed: Seq<u8>, start: int, half_steps: int, lane: int) -> int
    decreases half_steps,
{
    if half_steps <= 0 {
        0
    } else {
        let prev = s_path_acc(seed, start, half_steps - 1, lane);
        let w1 = stream_word(seed, start + 16 * (half_steps - 1) + lane);
        let w2 = stream_word(seed, start + 16 * (half_steps - 1) + 8 + lane);
        s_plus(prev, s_normal_inc(w1, w2))
    }
}

/// The discounted-later payoff of one path: the accumulated sum is scaled
/// and shifted by the per-scenario constants, exponentiated once, and the
/// floored payoff is taken with the call/put sign convention.
pub open spec fn s_payoff(acc: int, sspot: int, sstrike: int, drift: int, sidt: int) -> int {
    let e = s_exp(s_plus(s_times(acc, sidt), drift));
    max0(s_minus(s_times(sspot, e), sstrike))
}

/// The payoff sum over the first `lane` lanes of one chunk.
pub open spec fn s_lane_sum(
    seed: Seq<u8>,
    start: int,
    half_steps: int,
    sspot: int,
    sstrike: int,
    drift: int,
    sidt: int,
    lane: int,
) -> int
    decreases lane,
{
    if lane <= 0 {
        0
    } else {
        s_plus(
            s_lane_sum(seed, start, half_steps, sspot, sstrike, drift, sidt, lane - 1),
            s_payoff(s_path_acc(seed, start, half_steps, lane - 1), sspot, sstrike, drift, sidt),
        )
    }
}

/// The running payoff total over `chunks` lane-wide chunks, all drawn
/// from one stream starting at position `pos`.
pub open spec fn s_total(
    seed: Seq<u8>,
    pos: int,
    half_steps: int,
    sspot: int,
    sstrike: int,
    drift: int,
    sidt: int,
    chunks: int,
) -> int
    decreases chunks,
{
    if chunks <= 0 {
        0
    } else {
        s_plus(
            s_total(seed, pos, half_steps, sspot, sstrike, drift, sidt, chunks - 1),
            s_lane_sum(
                seed,
                pos + 16 * half_steps * (chunks - 1),
                half_steps,
                sspot,
                sstrike,
                drift,
                sidt,
                8,
            ),
        )
    }
}

/// Price one scenario's payoff for one path.
fn payoff(acc: &Fixed, c: &PayoffConfig) -> (r: Fixed)
    ensures
        r@ == s_payoff(acc@, c.signed_spot@, c.signed_strike@, c.drift_total@, c.sidt_scaled@),
{
    let e = fx_exp(&acc.times(&c.sidt_scaled).plus(&c.drift_total));
    c.signed_spot.times(&e).minus(&c.signed_strike).max_zero()
}

/// Simulate one chunk of `LANE_WIDTH` paths: the accumulated normal sum
/// of each lane, consuming exactly `16 * half_steps` stream words.
fn simulate_chunk(half_steps: u32, rng: &mut rand::rngs::StdRng) -> (acc: Vec<Fixed>)
    ensures
        acc.len() == 8,
        rng_seed(*final(rng)) == rng_seed(*old(rng)),
        rng_pos(*final(rng)) == rng_pos(*old(rng)) + 16 * (half_steps as int),
        forall|i: int|
            0 <= i < 8 ==> acc@[i]@ == s_path_acc(
                rng_seed(*old(rng)),
                rng_pos(*old(rng)),
                half_steps as int,
                i,
            ),
{
    let ghost seed0 = rng_seed(*rng);
    let ghost pos0 = rng_pos(*rng);
    let mut acc: Vec<Fixed> = Vec::new();
    let mut i: usize = 0;
    while i < 8
        invariant
            i <= 8,
            acc.len() == i,
            forall|k: int| 0 <= k < i ==> acc@[k]@ == 0,
        decreases 8 - i,
    {
        acc.push(Fixed::zero());
        i = i + 1;
    }
    let mut s: u32 = 0;
    while s < half_steps
        invariant
            s <= half_steps,
            acc.len() == 8,
            rng_seed(*rng) == seed0,
            rng_pos(*rng) == pos0 + 16 * (s as int),
            forall|k: int| 0 <= k < 8 ==> acc@[k]@ == s_path_acc(seed0, pos0, s as int, k),
        decreases half_steps - s,
    {
        let ghost base = pos0 + 16 * (s as int);
        let mut u1: Vec<Fixed> = Vec::new();
        let mut l: usize = 0;
        while l < 8
            invariant
                l <= 8,
                u1.len() == l,
                rng_seed(*rng) == seed0,
                rng_pos(*rng) == base + l,
                forall|k: int|
                    0 <= k < l ==> u1@[k]@ == s_uniform(stream_word(seed0, base + k)),
                forall|k: int| 0 <= k < l ==> !u1@[k].neg && 1 <= u1@[k].mag < SCALE,
            decreases 8 - l,
        {
            let u = next_uniform(rng);
            u1.push(u);
            l = l + 1;
        }
        let mut u2: Vec<Fixed> = Vec::new();
        let mut m: usize = 0;
        while m < 8
            invariant
                m <= 8,
                u2.len() == m,
                rng_seed(*rng) == seed0,
                rng_pos(*rng) == base + 8 + m,
                forall|k: int|
                    0 <= k < m ==> u2@[k]@ == s_uniform(stream_word(seed0, base + 8 + k)),
                forall|k: int| 0 <= k < m ==> !u2@[k].neg && 1 <= u2@[k].mag < SCALE,
            decreases 8 - m,
        {
            let u = next_uniform(rng);
            u2.push(u);
            m = m + 1;
        }
        let mut newacc: Vec<Fixed> = Vec::new();
        let mut j: usize = 0;
        while j < 8
            invariant
                j <= 8,
                base == pos0 + 16 * (s as int),
                newacc.len() == j,
                acc.len() == 8,
                u1.len() == 8,
                u2.len() == 8,
                forall|k: int|
                    0 <= k < 8 ==> u1@[k]@ == s_uniform(stream_word(seed0, base + k)),
                forall|k: int| 0 <= k < 8 ==> !u1@[k].neg && 1 <= u1@[k].mag < SCALE,
                forall|k: int|
                    0 <= k < 8 ==> u2@[k]@ == s_uniform(stream_word(seed0, base + 8 + k)),
                forall|k: int| 0 <= k < 8 ==> !u2@[k].neg && 1 <= u2@[k].mag < SCALE,
                forall|k: int| 0 <= k < 8 ==> acc@[k]@ == s_path_acc(seed0, pos0, s as int, k),
                forall|k: int|
                    0 <= k < j ==> newacc@[k]@ == s_path_acc(seed0, pos0, s as int + 1, k),
            decreases 8 - j,
        {
            let inc = box_muller(&u1[j], &u2[j]);
            let stepped = acc[j].plus(&inc);
            proof {
                let w1 = stream_word(seed0, base + j);
                let w2 = stream_word(seed0, base + 8 + j);
                assert(inc@ == s_normal_inc(w1, w2));
                assert(s_path_acc(seed0, pos0, s as int + 1, j as int) == s_plus(
                    s_path_acc(seed0, pos0, s as int, j as int),
                    s_normal_inc(
                        stream_word(seed0, pos0 + 16 * (s as int) + j),
                        stream_word(seed0, pos0 + 16 * (s as int) + 8 + j),
                    ),
                ));
                assert(pos0 + 16 * (s as int) + j == base + j);
                assert(stepped@ == s_path_acc(seed0, pos0, s as int + 1, j as int));
            }
            newacc.push(stepped);
            j = j + 1;
        }
        acc = newacc;
        s = s + 1;
    }
    acc
}

/// Simulate `chunks` lane-wide chunks from one stream and accumulate,
/// for every scenario, the payoff total over all lanes of all chunks.
/// Every scenario is priced over the same simulated paths: this is the
/// common-random-numbers core that the Greek estimators build on.
pub fn simulate_totals(
    configs: &Vec<PayoffConfig>,
    chunks: u32,
    half_steps: u32,
    rng: &mut rand::rngs::StdRng,
) -> (totals: Vec<Fixed>)
    ensures
        totals.len() == configs.len(),
        rng_seed(*final(rng)) == rng_seed(*old(rng)),
        rng_pos(*final(rng)) == rng_pos(*old(rng)) + 16 * (half_steps as int) * (chunks as int),
        forall|jj: int|
            0 <= jj < configs.len() ==> totals@[jj]@ == s_total(
                rng_seed(*old(rng)),
                rng_pos(*old(rng)),
                half_steps as int,
                configs@[jj].signed_spot@,
                configs@[jj].signed_strike@,
                configs@[jj].drift_total@,
                configs@[jj].sidt_scaled@,
                chunks as int,
            ),
{
    let ghost seed0 = rng_seed(*rng);
    let ghost pos0 = rng_pos(*rng);
    let n = configs.len();
    let mut totals: Vec<Fixed> = Vec::new();
    let mut i: usize = 0;
    while i < n
        invariant
            i <= n,
            totals.len() == i,
            forall|k: int| 0 <= k < i ==> totals@[k]@ == 0,
        decreases n - i,
    {
        totals.push(Fixed::zero());
        i = i + 1;
    }
    let mut ch: u32 = 0;
    while ch < chunks
        invariant
            ch <= chunks,
            totals.len() == configs.len(),
            rng_seed(*rng) == seed0,
            rng_pos(*rng) == pos0 + 16 * (half_steps as int) * (ch as int),
            forall|jj: int|
                0 <= jj < configs.len() ==> totals@[jj]@ == s_total(
                    seed0,
                    pos0,
                    half_steps as int,
                    configs@[jj].signed_spot@,
                    configs@[jj].signed_strike@,
                    configs@[jj].drift_total@,
                    configs@[jj].sidt_scaled@,
                    ch as int,
                ),
        decreases chunks - ch,
    {
        let ghost chunk_start = pos0 + 16 * (half_steps as int) * (ch as int);
        let accs = simulate_chunk(half_steps, rng);
        let mut newtotals: Vec<Fixed> = Vec::new();
        let mut j: usize = 0;
        while j < configs.len()
            invariant
                j <= configs.len(),
                newtotals.len() == j,
                totals.len() == configs.len(),
                accs.len() == 8,
                chunk_start == pos0 + 16 * (half_steps as int) * (ch as int),
                forall|k: int|
                    0 <= k < 8 ==> accs@[k]@ == s_path_acc(
                        seed0,
                        chunk_start,
                        half_steps as int,
                        k,
                    ),
                forall|jj: int|
                    0 <= jj < configs.len() ==> totals@[jj]@ == s_total(
                        seed0,
                        pos0,
                        half_steps as int,
                        configs@[jj].signed_spot@,
                        configs@[jj].signed_strike@,
                        configs@[jj].drift_total@,
                        configs@[jj].sidt_scaled@,
                        ch as int,
                    ),
                forall|jj: int|
                    0 <= jj < j ==> newtotals@[jj]@ == s_total(
                        seed0,
                        pos0,
                        half_steps as int,
                        configs@[jj].signed_spot@,
                        configs@[jj].signed_strike@,
                        configs@[jj].drift_total@,
                        configs@[jj].sidt_scaled@,
                        ch as int + 1,
                    ),
            decreases configs.len() - j,
        {
            let c = configs[j];
            let mut lanesum = Fixed::zero();
            let mut l: usize = 0;
            while l < 8
                invariant
                    l <= 8,
                    accs.len() == 8,
                    forall|k: int|
                        0 <= k < 8 ==> accs@[k]@ == s_path_acc(
                            seed0,
                            chunk_start,
                            half_steps as int,
                            k,
                        ),
                    lanesum@ == s_lane_sum(
                        seed0,
                        chunk_start,
                        half_steps as int,
                        c.signed_spot@,
                        c.signed_strike@,
                        c.drift_total@,
                        c.sidt_scaled@,
                        l as int,
                    ),
                decreases 8 - l,
            {
                let pf = payoff(&accs[l], &c);
                lanesum = lanesum.plus(&pf);
                l = l + 1;
            }
            let bumped = totals[j].plus(&lanesum);
            proof {
                assert(bumped@ == s_total(
                    seed0,
                    pos0,
                    half_steps as int,
                    configs@[j as int].signed_spot@,
                    configs@[j as int].signed_strike@,
                    configs@[j as int].drift_total@,
                    configs@[j as int].sidt_scaled@,
                    ch as int + 1,
                ));
            }
            newtotals.push(bumped);
            j = j + 1;
        }
        totals = newtotals;
        proof {
            assert(16 * (half_steps as int) * (ch as int + 1) == 16 * (half_steps as int) * (
            ch as int) + 16 * (half_steps as int)) by (nonlinear_arith);
        }
        ch = ch + 1;
    }
    totals
}

/// The broadcast drift constant of the path loop: the per-step drift
/// `(rate - yield - vol^2 / 2) * dt` times the step count, so that the
/// exponential is taken once per path instead of once per step.
pub open spec fn s_drift_total(vol: int, rate: int, yld: int, t: int, steps: int) -> int {
    let dt = tdiv(t, steps);
    let half_var = tdiv(s_times(vol, vol), 2);
    s_times_int(s_times(s_minus(s_minus(rate, yld), half_var), dt), steps)
}

/// The square root of two in Q32.32.
pub open spec fn s_sqrt2() -> int {
    s_sqrt(2 * (SCALE as int) * (SCALE as int))
}

/// The broadcast diffusion constant of the path loop: `vol * sqrt(dt)`
/// scaled by `sqrt 2`, which compensates for the two Box-Muller
/// components combined per loop iteration.
pub open spec fn s_sidt_scaled(vol: int, t: int, steps: int) -> int {
    let dt = tdiv(t, steps);
    s_times(s_sqrt2(), s_times(vol, s_sqrt(dt * (SCALE as int))))
}

/// The discount factor `exp(-rate * t)`.
pub open spec fn s_discount(rate: int, t: int) -> int {
    s_exp(-s_times(rate, t))
}

/// Compute the two broadcast path constants for one scenario.
fn path_constants(vol: &Fixed, rate: &Fixed, yld: &Fixed, t: &Fixed, steps: u32) -> (c: (
    Fixed,
    Fixed,
))
    requires
        steps >= 1,
        t@ >= 0,
    ensures
        c.0@ == s_drift_total(vol@, rate@, yld@, t@, steps as int),
        c.1@ == s_sidt_scaled(vol@, t@, steps as int),
{
    let dt = t.divide_int(steps as u64);
    let half_var = vol.times(vol).divide_int(2);
    let nudt = rate.minus(yld).minus(&half_var).times(&dt);
    let drift_total = nudt.times_int(steps as u64);
    let sq_dt = fx_sqrt(&dt);
    let sidt = vol.times(&sq_dt);
    let sqrt2 = fx_sqrt(&Fixed::from_int(2));
    let sidt_scaled = sqrt2.times(&sidt);
    (drift_total, sidt_scaled)
}

fn discount_factor(rate: &Fixed, t: &Fixed) -> (d: Fixed)
    ensures
        d@ == s_discount(rate@, t@),
{
    fx_exp(&rate.times(t).neg_val())
}

/// How many lane-wide chunks cover a trial count: the count rounded up
/// to the next multiple of the lane width.
pub open spec fn s_chunks(trials: int) -> int {
    (trials + 7) / 8
}

/// How many stream words one pricing call consumes: sixteen per
/// Box-Muller iteration per chunk.
pub open spec fn s_words_used(p: SimulationParameters) -> int {
    16 * (p.steps as int / 2) * s_chunks(p.num_trials as int)
}

/// The discounted average payoff of one scenario: the total over all
/// chunks, divided by the padded trial count, times the discount factor.
pub open spec fn s_scenario_price(
    seed: Seq<u8>,
    pos: int,
    half_steps: int,
    chunks: int,
    sspot: int,
    sstrike: int,
    drift: int,
    sidt: int,
    discount: int,
) -> int {
    s_times(
        tdiv(s_total(seed, pos, half_steps, sspot, sstrike, drift, sidt, chunks), 8 * chunks),
        discount,
    )
}

/// Which side of the option is priced.
#[derive(Clone, Copy, Debug, PartialEq, Eq, Structural)]
pub enum OptionKind {
    Call,
    Put,
}

/// The Monte Carlo price of a European option, as a pure function of the
/// parameters and of the seeded stream state alone.
pub open spec fn s_price(
    p: SimulationParameters,
    kind: OptionKind,
    seed: Seq<u8>,
    pos: int,
) -> int {
    let neg = kind is Put;
    let sspot = if neg {
        -p.spot@
    } else {
        p.spot@
    };
    let sstrike = if neg {
        -p.strike@
    } else {
        p.strike@
    };
    let drift = s_drift_total(
        p.volatility@,
        p.risk_free_rate@,
        p.dividend_yield@,
        p.years_to_expiry@,
        p.steps as int,
    );
    let sidt = s_sidt_scaled(p.volatility@, p.years_to_expiry@, p.steps as int);
    let disc = s_discount(p.risk_free_rate@, p.years_to_expiry@);
    s_scenario_price(
        seed,
        pos,
        p.steps as int / 2,
        s_chunks(p.num_trials as int),
        sspot,
        sstrike,
        drift,
        sidt,
        disc,
    )
}

/// The first offending field of an invalid parameter set, in the order
/// spot, strike, volatility, expiry, steps, trials.
pub open spec fn s_first_error(p: SimulationParameters) -> ParamError {
    if !spot_ok(p) {
        ParamError::InvalidSpot
    } else if !strike_ok(p) {
        ParamError::InvalidStrike
    } else if !volatility_ok(p) {
        ParamError::InvalidVolatility
    } else if !expiry_ok(p) {
        ParamError::InvalidExpiry
    } else if !steps_ok(p) {
        ParamError::InvalidSteps
    } else {
        ParamError::InvalidTrials
    }
}

/// Price a European option by Monte Carlo simulation.
///
/// On valid parameters the result is the exact fixed-point value pinned
/// by [`s_price`] over the stream's seed and position, and the stream
/// advances by exactly [`s_words_used`] words.  On invalid parameters
/// the matching error is returned and the stream is left untouched.
pub fn price(kind: OptionKind, p: &SimulationParameters, rng: &mut rand::rngs::StdRng) -> (r:
    Result<Fixed, ParamError>)
    ensures
        r is Ok <==> params_ok(*p),
        !params_ok(*p) ==> r == Err::<Fixed, ParamError>(s_first_error(*p)) && *final(rng) == *old(
            rng,
        ),
        params_ok(*p) ==> r is Ok && r->Ok_0@ == s_price(
            *p,
            kind,
            rng_seed(*old(rng)),
            rng_pos(*old(rng)),
        ),
        params_ok(*p) ==> rng_seed(*final(rng)) == rng_seed(*old(rng)) && rng_pos(*final(rng))
            == rng_pos(*old(rng)) + s_words_used(*p),
{
    match validate(p) {
        Err(e) => Err(e),
        Ok(()) => {
            let neg = match kind {
                OptionKind::Call => false,
                OptionKind::Put => true,
            };
            let sspot = if neg {
                p.spot.neg_val()
            } else {
                p.spot
            };
            let sstrike = if neg {
                p.strike.neg_val()
            } else {
                p.strike
            };
            let (drift_total, sidt_scaled) = path_constants(
                &p.volatility,
                &p.risk_free_rate,
                &p.dividend_yield,
                &p.years_to_expiry,
                p.steps,
            );
            let disc = discount_factor(&p.risk_free_rate, &p.years_to_expiry);
            let mut configs: Vec<PayoffConfig> = Vec::new();
            configs.push(
                PayoffConfig {
                    signed_spot: sspot,
                    signed_strike: sstrike,
                    drift_total,
                    sidt_scaled,
                },
            );
            let chunks: u32 = (p.num_trials + (LANE_WIDTH - 1)) / LANE_WIDTH;
            let half_steps: u32 = p.steps / 2;
            let totals = simulate_totals(&configs, chunks, half_steps, rng);
            let padded: u64 = (LANE_WIDTH as u64) * (chunks as u64);
            Ok(totals[0].divide_int(padded).times(&disc))
        },
    }
}

/// The Monte Carlo price of a European call; see [`price`].
pub fn call_price(p: &SimulationParameters, rng: &mut rand::rngs::StdRng) -> (r: Result<
    Fixed,
    ParamError,
>)
    ensures
        r is Ok <==> params_ok(*p),
        !params_ok(*p) ==> r == Err::<Fixed, ParamError>(s_first_error(*p)) && *final(rng) == *old(
            rng,
        ),
        params_ok(*p) ==> r is Ok && r->Ok_0@ == s_price(
            *p,
            OptionKind::Call,
            rng_seed(*old(rng)),
            rng_pos(*old(rng)),
        ),
        params_ok(*p) ==> rng_seed(*final(rng)) == rng_seed(*old(rng)) && rng_pos(*final(rng))
            == rng_pos(*old(rng)) + s_words_used(*p),
{
    price(OptionKind::Call, p, rng)
}

/// The Monte Carlo price of a European put; see [`price`].
pub fn put_price(p: &SimulationParameters, rng: &mut rand::rngs::StdRng) -> (r: Result<
    Fixed,
    ParamError,
>)
    ensures
        r is Ok <==> params_ok(*p),
        !params_ok(*p) ==> r == Err::<Fixed, ParamError>(s_first_error(*p)) && *final(rng) == *old(
            rng,
        ),
        params_ok(*p) ==> r is Ok && r->Ok_0@ == s_price(
            *p,
            OptionKind::Put,
            rng_seed(*old(rng)),
            rng_pos(*old(rng)),
        ),
        params_ok(*p) ==> rng_seed(*final(rng)) == rng_seed(*old(rng)) && rng_pos(*final(rng))
            == rng_pos(*old(rng)) + s_words_used(*p),
{
    price(OptionKind::Put, p, rng)
}


/// The antithetic-variate Monte Carlo price: every simulated path is
/// priced twice, once with its accumulated normal sum and once with the
/// sum mirrored (the diffusion scale negated), and the two payoff totals
/// are averaged.  The mirrored pricing reuses the same stream words, so
/// the estimator costs no additional random draws.
pub open spec fn s_price_av(
    p: SimulationParameters,
    kind: OptionKind,
    seed: Seq<u8>,
    pos: int,
) -> int {
    let neg = kind is Put;
    let sspot = if neg {
        -p.spot@
    } else {
        p.spot@
    };
    let sstrike = if neg {
        -p.strike@
    } else {
        p.strike@
    };
    let drift = s_drift_total(
        p.volatility@,
        p.risk_free_rate@,
        p.dividend_yield@,
        p.years_to_expiry@,
        p.steps as int,
    );
    let sidt = s_sidt_scaled(p.volatility@, p.years_to_expiry@, p.steps as int);
    let disc = s_discount(p.risk_free_rate@, p.years_to_expiry@);
    let hs = p.steps as int / 2;
    let chunks = s_chunks(p.num_trials as int);
    let tp = s_total(seed, pos, hs, sspot, sstrike, drift, sidt, chunks);
    let tn = s_total(seed, pos, hs, sspot, sstrike, drift, -sidt, chunks);
    s_times(tdiv(tdiv(s_plus(tp, tn), 2), 8 * chunks), disc)
}

/// Price a European option with the antithetic-variate estimator; the
/// exact result is pinned by [`s_price_av`], and the call consumes the
/// same [`s_words_used`] stream words as the plain estimator.
pub fn price_antithetic(kind: OptionKind, p: &SimulationParameters, rng: &mut rand::rngs::StdRng)
    -> (r: Result<Fixed, ParamError>)
    ensures
        r is Ok <==> params_ok(*p),
        !params_ok(*p) ==> r == Err::<Fixed, ParamError>(s_first_error(*p)) && *final(rng) == *old(
            rng,
        ),
        params_ok(*p) ==> r is Ok && r->Ok_0@ == s_price_av(
            *p,
            kind,
            rng_seed(*old(rng)),
            rng_pos(*old(rng)),
        ),
        params_ok(*p) ==> rng_seed(*final(rng)) == rng_seed(*old(rng)) && rng_pos(*final(rng))
            == rng_pos(*old(rng)) + s_words_used(*p),
{
    match validate(p) {
        Err(e) => Err(e),
        Ok(()) => {
            let neg = match kind {
                OptionKind::Call => false,
                OptionKind::Put => true,
            };
            let sspot = if neg {
                p.spot.neg_val()
            } else {
                p.spot
            };
            let sstrike = if neg {
                p.strike.neg_val()
            } else {
                p.strike
            };
            let (drift_total, sidt_scaled) = path_constants(
                &p.volatility,
                &p.risk_free_rate,
                &p.dividend_yield,
                &p.years_to_expiry,
                p.steps,
            );
            let disc = discount_factor(&p.risk_free_rate, &p.years_to_expiry);
            let mut configs: Vec<PayoffConfig> = Vec::new();
            configs.push(
                PayoffConfig {
                    signed_spot: sspot,
                    signed_strike: sstrike,
                    drift_total,
                    sidt_scaled,
                },
            );
            configs.push(
                PayoffConfig {
                    signed_spot: sspot,
                    signed_strike: sstrike,
                    drift_total,
                    sidt_scaled: sidt_scaled.neg_val(),
                },
            );
            let chunks: u32 = (p.num_trials + (LANE_WIDTH - 1)) / LANE_WIDTH;
            let half_steps: u32 = p.steps / 2;
            let totals = simulate_totals(&configs, chunks, half_steps, rng);
            let padded: u64 = (LANE_WIDTH as u64) * (chunks as u64);
            Ok(totals[0].plus(&totals[1]).divide_int(2).divide_int(padded).times(&disc))
        },
    }
}

/// The antithetic-variate price of a European call; see
/// [`price_antithetic`].
pub fn call_price_av(p: &SimulationParameters, rng: &mut rand::rngs::StdRng) -> (r: Result<
    Fixed,
    ParamError,
>)
    ensures
        r is Ok <==> params_ok(*p),
        !params_ok(*p) ==> r == Err::<Fixed, ParamError>(s_first_error(*p)) && *final(rng) == *old(
            rng,
        ),
        params_ok(*p) ==> r is Ok && r->Ok_0@ == s_price_av(
            *p,
            OptionKind::Call,
            rng_seed(*old(rng)),
            rng_pos(*old(rng)),
        ),
        params_ok(*p) ==> rng_seed(*final(rng)) == rng_seed(*old(rng)) && rng_pos(*final(rng))
            == rng_pos(*old(rng)) + s_words_used(*p),
{
    price_antithetic(OptionKind::Call, p, rng)
}

/// The antithetic-variate price of a European put; see
/// [`price_antithetic`].
pub fn put_price_av(p: &SimulationParameters, rng: &mut rand::rngs::StdRng) -> (r: Result<
    Fixed,
    ParamError,
>)
    ensures
        r is Ok <==> params_ok(*p),
        !params_ok(*p) ==> r == Err::<Fixed, ParamError>(s_first_error(*p)) && *final(rng) == *old(
            rng,
        ),
        params_ok(*p) ==> r is Ok && r->Ok_0@ == s_price_av(
            *p,
            OptionKind::Put,
            rng_seed(*old(rng)),
            rng_pos(*old(rng)),
        ),
        params_ok(*p) ==> rng_seed(*final(rng)) == rng_seed(*old(rng)) && rng_pos(*final(rng))
            == rng_pos(*old(rng)) + s_words_used(*p),
{
    price_antithetic(OptionKind::Put, p, rng)
}


/// The three prices of the spot-bump triple `(spot - h, spot, spot + h)`,
/// all taken over the same simulated paths.
pub open spec fn s_spot_triple(
    p: SimulationParameters,
    kind: OptionKind,
    bump: int,
    seed: Seq<u8>,
    pos: int,
) -> (int, int, int) {
    let neg = kind is Put;
    let drift = s_drift_total(
        p.volatility@,
        p.risk_free_rate@,
        p.dividend_yield@,
        p.years_to_expiry@,
        p.steps as int,
    );
    let sidt = s_sidt_scaled(p.volatility@, p.years_to_expiry@, p.steps as int);
    let disc = s_discount(p.risk_free_rate@, p.years_to_expiry@);
    let hs = p.steps as int / 2;
    let chunks = s_chunks(p.num_trials as int);
    let sstrike = if neg {
        -p.strike@
    } else {
        p.strike@
    };
    let sm = if neg {
        -s_minus(p.spot@, bump)
    } else {
        s_minus(p.spot@, bump)
    };
    let sc = if neg {
        -p.spot@
    } else {
        p.spot@
    };
    let sp = if neg {
        -s_plus(p.spot@, bump)
    } else {
        s_plus(p.spot@, bump)
    };
    (
        s_scenario_price(seed, pos, hs, chunks, sm, sstrike, drift, sidt, disc),
        s_scenario_price(seed, pos, hs, chunks, sc, sstrike, drift, sidt, disc),
        s_scenario_price(seed, pos, hs, chunks, sp, sstrike, drift, sidt, disc),
    )
}

/// Price the spot-bump triple over one shared set of simulated paths.
fn spot_triple(
    p: &SimulationParameters,
    kind: OptionKind,
    bump: &Fixed,
    rng: &mut rand::rngs::StdRng,
) -> (r: (Fixed, Fixed, Fixed))
    requires
        params_ok(*p),
        bump@ > 0,
    ensures
        rng_seed(*final(rng)) == rng_seed(*old(rng)),
        rng_pos(*final(rng)) == rng_pos(*old(rng)) + s_words_used(*p),
        ({
            let (pm, pc, pp) = s_spot_triple(*p, kind, bump@, rng_seed(*old(rng)), rng_pos(*old(rng)));
            r.0@ == pm && r.1@ == pc && r.2@ == pp
        }),
{
    let neg = match kind {
        OptionKind::Call => false,
        OptionKind::Put => true,
    };
    let (drift_total, sidt_scaled) = path_constants(
        &p.volatility,
        &p.risk_free_rate,
        &p.dividend_yield,
        &p.years_to_expiry,
        p.steps,
    );
    let disc = discount_factor(&p.risk_free_rate, &p.years_to_expiry);
    let spot_minus = p.spot.minus(bump);
    let spot_plus = p.spot.plus(bump);
    let sm = if neg {
        spot_minus.neg_val()
    } else {
        spot_minus
    };
    let sc = if neg {
        p.spot.neg_val()
    } else {
        p.spot
    };
    let sp = if neg {
        spot_plus.neg_val()
    } else {
        spot_plus
    };
    let sstrike = if neg {
        p.strike.neg_val()
    } else {
        p.strike
    };
    let mut configs: Vec<PayoffConfig> = Vec::new();
    configs.push(
        PayoffConfig { signed_spot: sm, signed_strike: sstrike, drift_total, sidt_scaled },
    );
    configs.push(
        PayoffConfig { signed_spot: sc, signed_strike: sstrike, drift_total, sidt_scaled },
    );
    configs.push(
        PayoffConfig { signed_spot: sp, signed_strike: sstrike, drift_total, sidt_scaled },
    );
    let chunks: u32 = (p.num_trials + (LANE_WIDTH - 1)) / LANE_WIDTH;
    let half_steps: u32 = p.steps / 2;
    let totals = simulate_totals(&configs, chunks, half_steps, rng);
    let padded: u64 = (LANE_WIDTH as u64) * (chunks as u64);
    (
        totals[0].divide_int(padded).times(&disc),
        totals[1].divide_int(padded).times(&disc),
        totals[2].divide_int(padded).times(&disc),
    )
}

/// The finite-difference delta `(price(spot + h) - price(spot - h)) / (2 h)`
/// over common random numbers.
pub open spec fn s_delta(
    p: SimulationParameters,
    kind: OptionKind,
    bump: int,
    seed: Seq<u8>,
    pos: int,
) -> int {
    let (pm, pc, pp) = s_spot_triple(p, kind, bump, seed, pos);
    s_divide(s_minus(pp, pm), s_times_int(bump, 2))
}

/// The finite-difference gamma
/// `(price(spot + h) - 2 price(spot) + price(spot - h)) / h^2` over common
/// random numbers, with the division by `h` applied twice to keep the
/// intermediate magnitudes representable.
pub open spec fn s_gamma(
    p: SimulationParameters,
    kind: OptionKind,
    bump: int,
    seed: Seq<u8>,
    pos: int,
) -> int {
    let (pm, pc, pp) = s_spot_triple(p, kind, bump, seed, pos);
    s_divide(s_divide(s_plus(s_minus(pp, s_times_int(pc, 2)), pm), bump), bump)
}

fn delta_estimate(
    p: &SimulationParameters,
    kind: OptionKind,
    bump: &Fixed,
    rng: &mut rand::rngs::StdRng,
) -> (r: Result<Fixed, ParamError>)
    ensures
        r is Ok <==> params_ok(*p) && bump@ > 0,
        !params_ok(*p) ==> r == Err::<Fixed, ParamError>(s_first_error(*p)) && *final(rng) == *old(
            rng,
        ),
        params_ok(*p) && !(bump@ > 0) ==> r == Err::<Fixed, ParamError>(ParamError::InvalidBump)
            && *final(rng) == *old(rng),
        params_ok(*p) && bump@ > 0 ==> r is Ok && r->Ok_0@ == s_delta(
            *p,
            kind,
            bump@,
            rng_seed(*old(rng)),
            rng_pos(*old(rng)),
        ) && rng_seed(*final(rng)) == rng_seed(*old(rng)) && rng_pos(*final(rng)) == rng_pos(
            *old(rng),
        ) + s_words_used(*p),
{
    match validate(p) {
        Err(e) => Err(e),
        Ok(()) => {
            if bump.neg || bump.mag == 0 {
                Err(ParamError::InvalidBump)
            } else {
                let (pm, _pc, pp) = spot_triple(p, kind, bump, rng);
                Ok(pp.minus(&pm).divide(&bump.times_int(2)))
            }
        },
    }
}

/// The Monte Carlo delta of a European call, by central finite
/// difference over common random numbers; see [`s_delta`].
pub fn call_delta(p: &SimulationParameters, bump: &Fixed, rng: &mut rand::rngs::StdRng) -> (r:
    Result<Fixed, ParamError>)
    ensures
        r is Ok <==> params_ok(*p) && bump@ > 0,
        !params_ok(*p) ==> r == Err::<Fixed, ParamError>(s_first_error(*p)) && *final(rng) == *old(
            rng,
        ),
        params_ok(*p) && !(bump@ > 0) ==> r == Err::<Fixed, ParamError>(ParamError::InvalidBump)
            && *final(rng) == *old(rng),
        params_ok(*p) && bump@ > 0 ==> r is Ok && r->Ok_0@ == s_delta(
            *p,
            OptionKind::Call,
            bump@,
            rng_seed(*old(rng)),
            rng_pos(*old(rng)),
        ) && rng_seed(*final(rng)) == rng_seed(*old(rng)) && rng_pos(*final(rng)) == rng_pos(
            *old(rng),
        ) + s_words_used(*p),
{
    delta_estimate(p, OptionKind::Call, bump, rng)
}

/// The Monte Carlo delta of a European put, by central finite difference
/// over common random numbers; see [`s_delta`].
pub fn put_delta(p: &SimulationParameters, bump: &Fixed, rng: &mut rand::rngs::StdRng) -> (r:
    Result<Fixed, ParamError>)
    ensures
        r is Ok <==> params_ok(*p) && bump@ > 0,
        !params_ok(*p) ==> r == Err::<Fixed, ParamError>(s_first_error(*p)) && *final(rng) == *old(
            rng,
        ),
        params_ok(*p) && !(bump@ > 0) ==> r == Err::<Fixed, ParamError>(ParamError::InvalidBump)
            && *final(rng) == *old(rng),
        params_ok(*p) && bump@ > 0 ==> r is Ok && r->Ok_0@ == s_delta(
            *p,
            OptionKind::Put,
            bump@,
            rng_seed(*old(rng)),
            rng_pos(*old(rng)),
        ) && rng_seed(*final(rng)) == rng_seed(*old(rng)) && rng_pos(*final(rng)) == rng_pos(
            *old(rng),
        ) + s_words_used(*p),
{
    delta_estimate(p, OptionKind::Put, bump, rng)
}

/// The Monte Carlo gamma, by second central finite difference over common
/// random numbers; see [`s_gamma`].  The curvature of a call equals that
/// of the put with the same terms, so one estimator serves both.
pub fn gamma(p: &SimulationParameters, bump: &Fixed, rng: &mut rand::rngs::StdRng) -> (r: Result<
    Fixed,
    ParamError,
>)
    ensures
        r is Ok <==> params_ok(*p) && bump@ > 0,
        !params_ok(*p) ==> r == Err::<Fixed, ParamError>(s_first_error(*p)) && *final(rng) == *old(
            rng,
        ),
        params_ok(*p) && !(bump@ > 0) ==> r == Err::<Fixed, ParamError>(ParamError::InvalidBump)
            && *final(rng) == *old(rng),
        params_ok(*p) && bump@ > 0 ==> r is Ok && r->Ok_0@ == s_gamma(
            *p,
            OptionKind::Call,
            bump@,
            rng_seed(*old(rng)),
            rng_pos(*old(rng)),
        ) && rng_seed(*final(rng)) == rng_seed(*old(rng)) && rng_pos(*final(rng)) == rng_pos(
            *old(rng),
        ) + s_words_used(*p),
{
    match validate(p) {
        Err(e) => Err(e),
        Ok(()) => {
            if bump.neg || bump.mag == 0 {
                Err(ParamError::InvalidBump)
            } else {
                let (pm, pc, pp) = spot_triple(p, OptionKind::Call, bump, rng);
                Ok(pp.minus(&pc.times_int(2)).plus(&pm).divide(bump).divide(bump))
            }
        },
    }
}


/// The finite-difference vega: the volatility is bumped both ways, the
/// two scenarios are priced over the same simulated paths, and the
/// difference is normalised to a one-percent volatility move (the
/// divisor `200 h`).
pub open spec fn s_vega(p: SimulationParameters, bump: int, seed: Seq<u8>, pos: int) -> int {
    let volp = s_plus(p.volatility@, bump);
    let volm = s_minus(p.volatility@, bump);
    let t = p.years_to_expiry@;
    let steps = p.steps as int;
    let driftp = s_drift_total(volp, p.risk_free_rate@, p.dividend_yield@, t, steps);
    let driftm = s_drift_total(volm, p.risk_free_rate@, p.dividend_yield@, t, steps);
    let sidtp = s_sidt_scaled(volp, t, steps);
    let sidtm = s_sidt_scaled(volm, t, steps);
    let disc = s_discount(p.risk_free_rate@, t);
    let hs = steps / 2;
    let chunks = s_chunks(p.num_trials as int);
    let pp = s_scenario_price(seed, pos, hs, chunks, p.spot@, p.strike@, driftp, sidtp, disc);
    let pm = s_scenario_price(seed, pos, hs, chunks, p.spot@, p.strike@, driftm, sidtm, disc);
    s_divide(s_minus(pp, pm), s_times_int(bump, 200))
}

/// The Monte Carlo vega, by central finite difference in the volatility
/// over common random numbers; see [`s_vega`].
pub fn vega(p: &SimulationParameters, bump: &Fixed, rng: &mut rand::rngs::StdRng) -> (r: Result<
    Fixed,
    ParamError,
>)
    ensures
        r is Ok <==> params_ok(*p) && bump@ > 0,
        !params_ok(*p) ==> r == Err::<Fixed, ParamError>(s_first_error(*p)) && *final(rng) == *old(
            rng,
        ),
        params_ok(*p) && !(bump@ > 0) ==> r == Err::<Fixed, ParamError>(ParamError::InvalidBump)
            && *final(rng) == *old(rng),
        params_ok(*p) && bump@ > 0 ==> r is Ok && r->Ok_0@ == s_vega(
            *p,
            bump@,
            rng_seed(*old(rng)),
            rng_pos(*old(rng)),
        ) && rng_seed(*final(rng)) == rng_seed(*old(rng)) && rng_pos(*final(rng)) == rng_pos(
            *old(rng),
        ) + s_words_used(*p),
{
    match validate(p) {
        Err(e) => Err(e),
        Ok(()) => {
            if bump.neg || bump.mag == 0 {
                Err(ParamError::InvalidBump)
            } else {
                let volp = p.volatility.plus(bump);
                let volm = p.volatility.minus(bump);
                let (driftp, sidtp) = path_constants(
                    &volp,
                    &p.risk_free_rate,
                    &p.dividend_yield,
                    &p.years_to_expiry,
                    p.steps,
                );
                let (driftm, sidtm) = path_constants(
                    &volm,
                    &p.risk_free_rate,
                    &p.dividend_yield,
                    &p.years_to_expiry,
                    p.steps,
                );
                let disc = discount_factor(&p.risk_free_rate, &p.years_to_expiry);
                let mut configs: Vec<PayoffConfig> = Vec::new();
                configs.push(
                    PayoffConfig {
                        signed_spot: p.spot,
                        signed_strike: p.strike,
                        drift_total: driftp,
                        sidt_scaled: sidtp,
                    },
                );
                configs.push(
                    PayoffConfig {
                        signed_spot: p.spot,
                        signed_strike: p.strike,
                        drift_total: driftm,
                        sidt_scaled: sidtm,
                    },
                );
                let chunks: u32 = (p.num_trials + (LANE_WIDTH - 1)) / LANE_WIDTH;
                let half_steps: u32 = p.steps / 2;
                let totals = simulate_totals(&configs, chunks, half_steps, rng);
                let padded: u64 = (LANE_WIDTH as u64) * (chunks as u64);
                let pp = totals[0].divide_int(padded).times(&disc);
                let pm = totals[1].divide_int(padded).times(&disc);
                Ok(pp.minus(&pm).divide(&bump.times_int(200)))
            }
        },
    }
}

/// The finite-difference rho: the rate is bumped both ways, each side is
/// priced over the same simulated paths with its own discount factor,
/// and the difference is normalised to a one-percent rate move.
pub open spec fn s_rho(
    p: SimulationParameters,
    kind: OptionKind,
    bump: int,
    seed: Seq<u8>,
    pos: int,
) -> int {
    let neg = kind is Put;
    let sspot = if neg {
        -p.spot@
    } else {
        p.spot@
    };
    let sstrike = if neg {
        -p.strike@
    } else {
        p.strike@
    };
    let ratep = s_plus(p.risk_free_rate@, bump);
    let ratem = s_minus(p.risk_free_rate@, bump);
    let t = p.years_to_expiry@;
    let steps = p.steps as int;
    let driftp = s_drift_total(p.volatility@, ratep, p.dividend_yield@, t, steps);
    let driftm = s_drift_total(p.volatility@, ratem, p.dividend_yield@, t, steps);
    let sidt = s_sidt_scaled(p.volatility@, t, steps);
    let hs = steps / 2;
    let chunks = s_chunks(p.num_trials as int);
    let pp = s_scenario_price(
        seed,
        pos,
        hs,
        chunks,
        sspot,
        sstrike,
        driftp,
        sidt,
        s_discount(ratep, t),
    );
    let pm = s_scenario_price(
        seed,
        pos,
        hs,
        chunks,
        sspot,
        sstrike,
        driftm,
        sidt,
        s_discount(ratem, t),
    );
    s_divide(s_minus(pp, pm), s_times_int(bump, 200))
}

fn rho_estimate(
    p: &SimulationParameters,
    kind: OptionKind,
    bump: &Fixed,
    rng: &mut rand::rngs::StdRng,
) -> (r: Result<Fixed, ParamError>)
    ensures
        r is Ok <==> params_ok(*p) && bump@ > 0,
        !params_ok(*p) ==> r == Err::<Fixed, ParamError>(s_first_error(*p)) && *final(rng) == *old(
            rng,
        ),
        params_ok(*p) && !(bump@ > 0) ==> r == Err::<Fixed, ParamError>(ParamError::InvalidBump)
            && *final(rng) == *old(rng),
        params_ok(*p) && bump@ > 0 ==> r is Ok && r->Ok_0@ == s_rho(
            *p,
            kind,
            bump@,
            rng_seed(*old(rng)),
            rng_pos(*old(rng)),
        ) && rng_seed(*final(rng)) == rng_seed(*old(rng)) && rng_pos(*final(rng)) == rng_pos(
            *old(rng),
        ) + s_words_used(*p),
{
    match validate(p) {
        Err(e) => Err(e),
        Ok(()) => {
            if bump.neg || bump.mag == 0 {
                Err(ParamError::InvalidBump)
            } else {
                let neg = match kind {
                    OptionKind::Call => false,
                    OptionKind::Put => true,
                };
                let sspot = if neg {
                    p.spot.neg_val()
                } else {
                    p.spot
                };
                let sstrike = if neg {
                    p.strike.neg_val()
                } else {
                    p.strike
                };
                let ratep = p.risk_free_rate.plus(bump);
                let ratem = p.risk_free_rate.minus(bump);
                let (driftp, sidt) = path_constants(
                    &p.volatility,
                    &ratep,
                    &p.dividend_yield,
                    &p.years_to_expiry,
                    p.steps,
                );
                let (driftm, _sidt2) = path_constants(
                    &p.volatility,
                    &ratem,
                    &p.dividend_yield,
                    &p.years_to_expiry,
                    p.steps,
                );
                let discp = discount_factor(&ratep, &p.years_to_expiry);
                let discm = discount_factor(&ratem, &p.years_to_expiry);
                let mut configs: Vec<PayoffConfig> = Vec::new();
                configs.push(
                    PayoffConfig {
                        signed_spot: sspot,
                        signed_strike: sstrike,
                        drift_total: driftp,
                        sidt_scaled: sidt,
                    },
                );
                configs.push(
                    PayoffConfig {
                        signed_spot: sspot,
                        signed_strike: sstrike,
                        drift_total: driftm,
                        sidt_scaled: sidt,
                    },
                );
                let chunks: u32 = (p.num_trials + (LANE_WIDTH - 1)) / LANE_WIDTH;
                let half_steps: u32 = p.steps / 2;
                let totals = simulate_totals(&configs, chunks, half_steps, rng);
                let padded: u64 = (LANE_WIDTH as u64) * (chunks as u64);
                let pp = totals[0].divide_int(padded).times(&discp);
                let pm = totals[1].divide_int(padded).times(&discm);
                Ok(pp.minus(&pm).divide(&bump.times_int(200)))
            }
        },
    }
}

/// The Monte Carlo rho of a European call; see [`s_rho`].
pub fn call_rho(p: &SimulationParameters, bump: &Fixed, rng: &mut rand::rngs::StdRng) -> (r:
    Result<Fixed, ParamError>)
    ensures
        r is Ok <==> params_ok(*p) && bump@ > 0,
        !params_ok(*p) ==> r == Err::<Fixed, ParamError>(s_first_error(*p)) && *final(rng) == *old(
            rng,
        ),
        params_ok(*p) && !(bump@ > 0) ==> r == Err::<Fixed, ParamError>(ParamError::InvalidBump)
            && *final(rng) == *old(rng),
        params_ok(*p) && bump@ > 0 ==> r is Ok && r->Ok_0@ == s_rho(
            *p,
            OptionKind::Call,
            bump@,
            rng_seed(*old(rng)),
            rng_pos(*old(rng)),
        ) && rng_seed(*final(rng)) == rng_seed(*old(rng)) && rng_pos(*final(rng)) == rng_pos(
            *old(rng),
        ) + s_words_used(*p),
{
    rho_estimate(p, OptionKind::Call, bump, rng)
}

/// The Monte Carlo rho of a European put; see [`s_rho`].
pub fn put_rho(p: &SimulationParameters, bump: &Fixed, rng: &mut rand::rngs::StdRng) -> (r: Result<
    Fixed,
    ParamError,
>)
    ensures
        r is Ok <==> params_ok(*p) && bump@ > 0,
        !params_ok(*p) ==> r == Err::<Fixed, ParamError>(s_first_error(*p)) && *final(rng) == *old(
            rng,
        ),
        params_ok(*p) && !(bump@ > 0) ==> r == Err::<Fixed, ParamError>(ParamError::InvalidBump)
            && *final(rng) == *old(rng),
        params_ok(*p) && bump@ > 0 ==> r is Ok && r->Ok_0@ == s_rho(
            *p,
            OptionKind::Put,
            bump@,
            rng_seed(*old(rng)),
            rng_pos(*old(rng)),
        ) && rng_seed(*final(rng)) == rng_seed(*old(rng)) && rng_pos(*final(rng)) == rng_pos(
            *old(rng),
        ) + s_words_used(*p),
{
    rho_estimate(p, OptionKind::Put, bump, rng)
}

/// Whether a theta bump is admissible: strictly positive and strictly
/// below the time to expiry, so that the shortened scenario still has a
/// positive life.
pub open spec fn theta_bump_ok(p: SimulationParameters, bump: int) -> bool {
    0 < bump < p.years_to_expiry@
}

/// The finite-difference theta: the time to expiry is bumped both ways
/// and each side is priced over the same simulated paths with its own
/// constants and discount.  Because more time is the reverse of time
/// decay, the difference is `price(t - h) - price(t + h)`: the
/// subtraction order is deliberately reversed relative to the other
/// Greeks.
pub open spec fn s_theta(
    p: SimulationParameters,
    kind: OptionKind,
    bump: int,
    seed: Seq<u8>,
    pos: int,
) -> int {
    let neg = kind is Put;
    let sspot = if neg {
        -p.spot@
    } else {
        p.spot@
    };
    let sstrike = if neg {
        -p.strike@
    } else {
        p.strike@
    };
    let tp = s_plus(p.years_to_expiry@, bump);
    let tm = s_minus(p.years_to_expiry@, bump);
    let steps = p.steps as int;
    let driftp = s_drift_total(p.volatility@, p.risk_free_rate@, p.dividend_yield@, tp, steps);
    let driftm = s_drift_total(p.volatility@, p.risk_free_rate@, p.dividend_yield@, tm, steps);
    let sidtp = s_sidt_scaled(p.volatility@, tp, steps);
    let sidtm = s_sidt_scaled(p.volatility@, tm, steps);
    let hs = steps / 2;
    let chunks = s_chunks(p.num_trials as int);
    let pp = s_scenario_price(
        seed,
        pos,
        hs,
        chunks,
        sspot,
        sstrike,
        driftp,
        sidtp,
        s_discount(p.risk_free_rate@, tp),
    );
    let pm = s_scenario_price(
        seed,
        pos,
        hs,
        chunks,
        sspot,
        sstrike,
        driftm,
        sidtm,
        s_discount(p.risk_free_rate@, tm),
    );
    s_divide(s_minus(pm, pp), s_times_int(bump, 2))
}

fn theta_estimate(
    p: &SimulationParameters,
    kind: OptionKind,
    bump: &Fixed,
    rng: &mut rand::rngs::StdRng,
) -> (r: Result<Fixed, ParamError>)
    ensures
        r is Ok <==> params_ok(*p) && theta_bump_ok(*p, bump@),
        !params_ok(*p) ==> r == Err::<Fixed, ParamError>(s_first_error(*p)) && *final(rng) == *old(
            rng,
        ),
        params_ok(*p) && !theta_bump_ok(*p, bump@) ==> r == Err::<Fixed, ParamError>(
            ParamError::InvalidBump,
        ) && *final(rng) == *old(rng),
        params_ok(*p) && theta_bump_ok(*p, bump@) ==> r is Ok && r->Ok_0@ == s_theta(
            *p,
            kind,
            bump@,
            rng_seed(*old(rng)),
            rng_pos(*old(rng)),
        ) && rng_seed(*final(rng)) == rng_seed(*old(rng)) && rng_pos(*final(rng)) == rng_pos(
            *old(rng),
        ) + s_words_used(*p),
{
    match validate(p) {
        Err(e) => Err(e),
        Ok(()) => {
            if bump.neg || bump.mag == 0 || !bump.le(&p.years_to_expiry) || bump.mag
                == p.years_to_expiry.mag {
                Err(ParamError::InvalidBump)
            } else {
                let neg = match kind {
                    OptionKind::Call => false,
                    OptionKind::Put => true,
                };
                let sspot = if neg {
                    p.spot.neg_val()
                } else {
                    p.spot
                };
                let sstrike = if neg {
                    p.strike.neg_val()
                } else {
                    p.strike
                };
                let tp = p.years_to_expiry.plus(bump);
                let tm = p.years_to_expiry.minus(bump);
                let (driftp, sidtp) = path_constants(
                    &p.volatility,
                    &p.risk_free_rate,
                    &p.dividend_yield,
                    &tp,
                    p.steps,
                );
                let (driftm, sidtm) = path_constants(
                    &p.volatility,
                    &p.risk_free_rate,
                    &p.dividend_yield,
                    &tm,
                    p.steps,
                );
                let discp = discount_factor(&p.risk_free_rate, &tp);
                let discm = discount_factor(&p.risk_free_rate, &tm);
                let mut configs: Vec<PayoffConfig> = Vec::new();
                configs.push(
                    PayoffConfig {
                        signed_spot: sspot,
                        signed_strike: sstrike,
                        drift_total: driftp,
                        sidt_scaled: sidtp,
                    },
                );
                configs.push(
                    PayoffConfig {
                        signed_spot: sspot,
                        signed_strike: sstrike,
                        drift_total: driftm,
                        sidt_scaled: sidtm,
                    },
                );
                let chunks: u32 = (p.num_trials + (LANE_WIDTH - 1)) / LANE_WIDTH;
                let half_steps: u32 = p.steps / 2;
                let totals = simulate_totals(&configs, chunks, half_steps, rng);
                let padded: u64 = (LANE_WIDTH as u64) * (chunks as u64);
                let pp = totals[0].divide_int(padded).times(&discp);
                let pm = totals[1].divide_int(padded).times(&discm);
                Ok(pm.minus(&pp).divide(&bump.times_int(2)))
            }
        },
    }
}

/// The Monte Carlo theta of a European call; see [`s_theta`].
pub fn call_theta(p: &SimulationParameters, bump: &Fixed, rng: &mut rand::rngs::StdRng) -> (r:
    Result<Fixed, ParamError>)
    ensures
        r is Ok <==> params_ok(*p) && theta_bump_ok(*p, bump@),
        !params_ok(*p) ==> r == Err::<Fixed, ParamError>(s_first_error(*p)) && *final(rng) == *old(
            rng,
        ),
        params_ok(*p) && !theta_bump_ok(*p, bump@) ==> r == Err::<Fixed, ParamError>(
            ParamError::InvalidBump,
        ) && *final(rng) == *old(rng),
        params_ok(*p) && theta_bump_ok(*p, bump@) ==> r is Ok && r->Ok_0@ == s_theta(
            *p,
            OptionKind::Call,
            bump@,
            rng_seed(*old(rng)),
            rng_pos(*old(rng)),
        ) && rng_seed(*final(rng)) == rng_seed(*old(rng)) && rng_pos(*final(rng)) == rng_pos(
            *old(rng),
        ) + s_words_used(*p),
{
    theta_estimate(p, OptionKind::Call, bump, rng)
}

/// The Monte Carlo theta of a European put; see [`s_theta`].
pub fn put_theta(p: &SimulationParameters, bump: &Fixed, rng: &mut rand::rngs::StdRng) -> (r:
    Result<Fixed, ParamError>)
    ensures
        r is Ok <==> params_ok(*p) && theta_bump_ok(*p, bump@),
        !params_ok(*p) ==> r == Err::<Fixed, ParamError>(s_first_error(*p)) && *final(rng) == *old(
            rng,
        ),
        params_ok(*p) && !theta_bump_ok(*p, bump@) ==> r == Err::<Fixed, ParamError>(
            ParamError::InvalidBump,
        ) && *final(rng) == *old(rng),
        params_ok(*p) && theta_bump_ok(*p, bump@) ==> r is Ok && r->Ok_0@ == s_theta(
            *p,
            OptionKind::Put,
            bump@,
            rng_seed(*old(rng)),
            rng_pos(*old(rng)),
        ) && rng_seed(*final(rng)) == rng_seed(*old(rng)) && rng_pos(*final(rng)) == rng_pos(
            *old(rng),
        ) + s_words_used(*p),
{
    theta_estimate(p, OptionKind::Put, bump, rng)
}


/// Which sensitivity a [`greek`] request asks for.
#[derive(Clone, Copy, Debug, PartialEq, Eq, Structural)]
pub enum GreekKind {
    Delta,
    Gamma,
    Vega,
    Rho,
    Theta,
}

/// Whether a bump is admissible for the requested sensitivity: strictly
/// positive, and for theta also strictly below the time to expiry.
pub open spec fn greek_bump_ok(which: GreekKind, p: SimulationParameters, bump: int) -> bool {
    if which is Theta {
        theta_bump_ok(p, bump)
    } else {
        bump > 0
    }
}

/// The requested sensitivity as a pure function of the parameters and
/// the stream state.  Gamma and vega do not depend on the option side.
pub open spec fn s_greek(
    which: GreekKind,
    kind: OptionKind,
    p: SimulationParameters,
    bump: int,
    seed: Seq<u8>,
    pos: int,
) -> int {
    match which {
        GreekKind::Delta => s_delta(p, kind, bump, seed, pos),
        GreekKind::Gamma => s_gamma(p, OptionKind::Call, bump, seed, pos),
        GreekKind::Vega => s_vega(p, bump, seed, pos),
        GreekKind::Rho => s_rho(p, kind, bump, seed, pos),
        GreekKind::Theta => s_theta(p, kind, bump, seed, pos),
    }
}

/// Estimate one Greek by central finite differences over common random
/// numbers; the exact result is pinned by [`s_greek`].
pub fn greek(
    which: GreekKind,
    kind: OptionKind,
    p: &SimulationParameters,
    bump: &Fixed,
    rng: &mut rand::rngs::StdRng,
) -> (r: Result<Fixed, ParamError>)
    ensures
        r is Ok <==> params_ok(*p) && greek_bump_ok(which, *p, bump@),
        !params_ok(*p) ==> r == Err::<Fixed, ParamError>(s_first_error(*p)) && *final(rng) == *old(
            rng,
        ),
        params_ok(*p) && !greek_bump_ok(which, *p, bump@) ==> r == Err::<Fixed, ParamError>(
            ParamError::InvalidBump,
        ) && *final(rng) == *old(rng),
        params_ok(*p) && greek_bump_ok(which, *p, bump@) ==> r is Ok && r->Ok_0@ == s_greek(
            which,
            kind,
            *p,
            bump@,
            rng_seed(*old(rng)),
            rng_pos(*old(rng)),
        ) && rng_seed(*final(rng)) == rng_seed(*old(rng)) && rng_pos(*final(rng)) == rng_pos(
            *old(rng),
        ) + s_words_used(*p),
{
    match which {
        GreekKind::Delta => delta_estimate(p, kind, bump, rng),
        GreekKind::Gamma => gamma(p, bump, rng),
        GreekKind::Vega => vega(p, bump, rng),
        GreekKind::Rho => rho_estimate(p, kind, bump, rng),
        GreekKind::Theta => theta_estimate(p, kind, bump, rng),
    }
}

} // verus!
