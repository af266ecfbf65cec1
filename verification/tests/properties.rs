//! Cross-cutting properties: put-call parity, convergence scaling,
//! antithetic variance reduction, input validation, and exact values of
//! the fixed-point kernels.

use mcpricer::engine::{
    call_delta, call_price, call_price_av, gamma, put_delta, put_price, OptionKind, ParamError,
    SimulationParameters,
};
use mcpricer::fixed::Fixed;
use mcpricer::math::{fx_exp, fx_neg_ln, fx_sin_cos, fx_sqrt};
use mcpricer::stream::rng_from_seed;

fn pp_fx(v: f64) -> Fixed {
    Fixed::from_parts(v < 0.0, (v.abs() * 4294967296.0).round() as u64)
}

fn pp_f64(x: &Fixed) -> f64 {
    let m = (x.mag as f64) / 4294967296.0;
    if x.neg {
        -m
    } else {
        m
    }
}

fn pp_seed(tag: u8) -> [u8; 32] {
    let mut seed = [0u8; 32];
    for i in 0..32 {
        seed[i] = tag.wrapping_mul(89).wrapping_add(i as u8).wrapping_mul(13);
    }
    seed
}

fn pp_params(
    spot: f64,
    strike: f64,
    volatility: f64,
    rate: f64,
    years: f64,
    dividend: f64,
    steps: u32,
    trials: u32,
) -> SimulationParameters {
    SimulationParameters {
        spot: pp_fx(spot),
        strike: pp_fx(strike),
        volatility: pp_fx(volatility),
        risk_free_rate: pp_fx(rate),
        years_to_expiry: pp_fx(years),
        dividend_yield: pp_fx(dividend),
        steps,
        num_trials: trials,
    }
}

#[test]
fn put_call_parity() {
    // call - put over a shared stream approximates
    // spot e^(-qT) - strike e^(-rT).
    let p = pp_params(100.0, 110.0, 0.25, 0.05, 0.5, 0.02, 100, 10000);
    let mut rng_c = rng_from_seed(&pp_seed(1));
    let mut rng_p = rng_from_seed(&pp_seed(1));
    let call = pp_f64(&call_price(&p, &mut rng_c).unwrap());
    let put = pp_f64(&put_price(&p, &mut rng_p).unwrap());
    let expected = 100.0 * (-0.02f64 * 0.5).exp() - 110.0 * (-0.05f64 * 0.5).exp();
    assert!(((call - put) - expected).abs() <= 1.0);
}

fn pp_run_prices(trials: u32, runs: u8, base_tag: u8) -> Vec<f64> {
    let p = pp_params(100.0, 110.0, 0.25, 0.05, 0.5, 0.02, 20, trials);
    let mut out = Vec::new();
    for k in 0..runs {
        let mut rng = rng_from_seed(&pp_seed(base_tag.wrapping_add(k)));
        out.push(pp_f64(&call_price(&p, &mut rng).unwrap()));
    }
    out
}

fn pp_std(values: &[f64]) -> f64 {
    let n = values.len() as f64;
    let mean: f64 = values.iter().sum::<f64>() / n;
    let var: f64 = values.iter().map(|v| (v - mean) * (v - mean)).sum::<f64>() / n;
    var.sqrt()
}

#[test]
fn stddev_shrinks_with_trials() {
    // Independent runs at a 16-fold larger trial count should show a
    // sample standard deviation about four times smaller.
    let small = pp_run_prices(400, 16, 10);
    let large = pp_run_prices(6400, 16, 40);
    let sd_small = pp_std(&small);
    let sd_large = pp_std(&large);
    assert!(
        sd_small > 1.8 * sd_large,
        "expected roughly fourfold shrink, got {sd_small:.4} vs {sd_large:.4}"
    );
}

#[test]
fn antithetic_variance_not_worse() {
    // Matched trial counts, identical parameters: the antithetic
    // estimator's sample variance stays at or below the plain one's.
    let p = pp_params(100.0, 110.0, 0.25, 0.05, 0.5, 0.02, 20, 2000);
    let mut plain = Vec::new();
    let mut anti = Vec::new();
    for k in 0..24u8 {
        let mut rng_a = rng_from_seed(&pp_seed(100u8.wrapping_add(k)));
        let mut rng_b = rng_from_seed(&pp_seed(100u8.wrapping_add(k)));
        plain.push(pp_f64(&call_price(&p, &mut rng_a).unwrap()));
        anti.push(pp_f64(&call_price_av(&p, &mut rng_b).unwrap()));
    }
    let sd_plain = pp_std(&plain);
    let sd_anti = pp_std(&anti);
    assert!(
        sd_anti <= sd_plain,
        "antithetic sd {sd_anti:.5} exceeded plain sd {sd_plain:.5}"
    );
}

#[test]
fn call_delta_within_unit_interval() {
    let p = pp_params(100.0, 110.0, 0.25, 0.05, 0.5, 0.02, 20, 2000);
    let mut rng = rng_from_seed(&pp_seed(150));
    let d = pp_f64(&call_delta(&p, &pp_fx(0.001), &mut rng).unwrap());
    assert!(0.0 <= d && d <= 1.0, "call delta out of range: {d}");
}

#[test]
fn put_delta_within_negative_unit_interval() {
    let p = pp_params(100.0, 110.0, 0.25, 0.05, 0.5, 0.02, 20, 2000);
    let mut rng = rng_from_seed(&pp_seed(151));
    let d = pp_f64(&put_delta(&p, &pp_fx(0.001), &mut rng).unwrap());
    assert!(-1.0 <= d && d <= 0.0, "put delta out of range: {d}");
}

#[test]
fn gamma_nonnegative() {
    let p = pp_params(100.0, 110.0, 0.25, 0.05, 0.5, 0.02, 20, 2000);
    let mut rng = rng_from_seed(&pp_seed(152));
    let g = pp_f64(&gamma(&p, &pp_fx(0.01), &mut rng).unwrap());
    // The floored payoff is convex in the spot, so the second difference
    // is nonnegative up to the truncation residue of the two divisions.
    assert!(g >= -1e-4, "gamma below the rounding floor: {g}");
}

#[test]
fn price_reproducible_from_seed() {
    let p = pp_params(100.0, 110.0, 0.25, 0.05, 0.5, 0.02, 20, 1000);
    let mut rng_a = rng_from_seed(&pp_seed(160));
    let mut rng_b = rng_from_seed(&pp_seed(160));
    let a = call_price(&p, &mut rng_a).unwrap();
    let b = call_price(&p, &mut rng_b).unwrap();
    assert_eq!(a.neg, b.neg);
    assert_eq!(a.mag, b.mag);
}

#[test]
fn padded_trial_counts_share_lanes() {
    // 993..1000 trials all round up to the same 125 full lanes, so a
    // shared seed gives identical padded estimates.
    let mut rng_a = rng_from_seed(&pp_seed(161));
    let mut rng_b = rng_from_seed(&pp_seed(161));
    let pa = pp_params(100.0, 110.0, 0.25, 0.05, 0.5, 0.02, 20, 993);
    let pb = pp_params(100.0, 110.0, 0.25, 0.05, 0.5, 0.02, 20, 1000);
    let a = call_price(&pa, &mut rng_a).unwrap();
    let b = call_price(&pb, &mut rng_b).unwrap();
    assert_eq!(a.mag, b.mag);
}

#[test]
fn rejects_degenerate_inputs() {
    let good = pp_params(100.0, 110.0, 0.25, 0.05, 0.5, 0.02, 20, 1000);
    let mut rng = rng_from_seed(&pp_seed(170));

    let mut p = good;
    p.spot = pp_fx(0.0);
    assert_eq!(call_price(&p, &mut rng).unwrap_err(), ParamError::InvalidSpot);

    let mut p = good;
    p.strike = pp_fx(-5.0);
    assert_eq!(call_price(&p, &mut rng).unwrap_err(), ParamError::InvalidStrike);

    let mut p = good;
    p.volatility = pp_fx(-0.1);
    assert_eq!(call_price(&p, &mut rng).unwrap_err(), ParamError::InvalidVolatility);

    let mut p = good;
    p.years_to_expiry = pp_fx(0.0);
    assert_eq!(call_price(&p, &mut rng).unwrap_err(), ParamError::InvalidExpiry);

    let mut p = good;
    p.steps = 0;
    assert_eq!(call_price(&p, &mut rng).unwrap_err(), ParamError::InvalidSteps);

    let mut p = good;
    p.steps = 21;
    assert_eq!(call_price(&p, &mut rng).unwrap_err(), ParamError::InvalidSteps);

    let mut p = good;
    p.num_trials = 0;
    assert_eq!(call_price(&p, &mut rng).unwrap_err(), ParamError::InvalidTrials);

    let g = gamma(&good, &pp_fx(0.0), &mut rng);
    assert_eq!(g.unwrap_err(), ParamError::InvalidBump);
}

#[test]
fn price_dispatch_matches_sides() {
    let p = pp_params(100.0, 110.0, 0.25, 0.05, 0.5, 0.02, 20, 1000);
    let mut rng_a = rng_from_seed(&pp_seed(171));
    let mut rng_b = rng_from_seed(&pp_seed(171));
    let direct = call_price(&p, &mut rng_a).unwrap();
    let via = mcpricer::engine::price(OptionKind::Call, &p, &mut rng_b).unwrap();
    assert_eq!(direct.mag, via.mag);
}

#[test]
fn fixed_arithmetic_exact_values() {
    let s: u64 = 4294967296;
    let a = pp_fx(1.5);
    let b = pp_fx(2.5);
    let sum = a.plus(&b);
    assert!(!sum.neg);
    assert_eq!(sum.mag, 4 * s);
    let diff = a.minus(&b);
    assert!(diff.neg);
    assert_eq!(diff.mag, s);
    let prod = a.times(&b);
    assert_eq!(prod.mag, s / 4 * 15);
    let quot = a.divide(&b);
    assert_eq!(quot.mag, 2576980377);
    let floored = diff.max_zero();
    assert_eq!(floored.mag, 0);
    let neg = a.neg_val();
    assert!(neg.neg);
    assert_eq!(neg.mag, a.mag);
    let saturated = Fixed::from_parts(false, u64::MAX).plus(&Fixed::one());
    assert_eq!(saturated.mag, u64::MAX);
}

#[test]
fn sqrt_exact_on_squares() {
    let r = fx_sqrt(&Fixed::from_int(4));
    assert!(!r.neg);
    assert_eq!(r.mag, 2 * 4294967296);
    let r9 = fx_sqrt(&Fixed::from_int(9));
    assert_eq!(r9.mag, 3 * 4294967296);
}

#[test]
fn exp_of_zero_is_one() {
    let r = fx_exp(&Fixed::zero());
    assert!(!r.neg);
    assert_eq!(r.mag, 4294967296);
}

#[test]
fn exp_matches_reference() {
    let e = pp_f64(&fx_exp(&pp_fx(1.0)));
    assert!((e - 1.0f64.exp()).abs() < 1e-5);
    let em = pp_f64(&fx_exp(&pp_fx(-2.5)));
    assert!((em - (-2.5f64).exp()).abs() < 1e-5);
}

#[test]
fn neg_ln_matches_reference() {
    let l = pp_f64(&fx_neg_ln(&pp_fx(0.5)));
    assert!((l - 2.0f64.ln()).abs() < 1e-5);
    let l2 = pp_f64(&fx_neg_ln(&pp_fx(0.1)));
    assert!((l2 - 10.0f64.ln()).abs() < 1e-4);
}

#[test]
fn sin_cos_exact_on_axes() {
    let s: u64 = 4294967296;
    let (sin0, cos0) = fx_sin_cos(&Fixed::zero());
    assert_eq!(sin0.mag, 0);
    assert_eq!(cos0.mag, s);
    let (sinq, cosq) = fx_sin_cos(&pp_fx(0.25));
    assert_eq!(sinq.mag, s);
    assert_eq!(cosq.mag, 0);
    let (sinh, cosh) = fx_sin_cos(&pp_fx(0.5));
    assert_eq!(sinh.mag, 0);
    assert_eq!(cosh.mag, s);
    assert!(cosh.neg);
}

#[test]
fn sin_cos_matches_reference() {
    let u = 0.15f64;
    let (sn, cs) = fx_sin_cos(&pp_fx(u));
    let angle = 2.0 * std::f64::consts::PI * u;
    assert!((pp_f64(&sn) - angle.sin()).abs() < 1e-4);
    assert!((pp_f64(&cs) - angle.cos()).abs() < 1e-4);
}
