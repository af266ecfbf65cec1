//! Monte Carlo prices and Greeks checked against the closed-form
//! Black-Scholes values.

use mcpricer::engine::SimulationParameters;
use mcpricer::engine::{
    call_delta, call_price, call_price_av, call_rho, call_theta, gamma, put_delta, put_price,
    put_price_av, put_rho, put_theta, vega,
};
use mcpricer::fixed::Fixed;
use mcpricer::stream::rng_from_seed;

fn pr_fx(v: f64) -> Fixed {
    Fixed::from_parts(v < 0.0, (v.abs() * 4294967296.0).round() as u64)
}

fn pr_f64(x: &Fixed) -> f64 {
    let m = (x.mag as f64) / 4294967296.0;
    if x.neg {
        -m
    } else {
        m
    }
}

fn pr_params(
    spot: f64,
    strike: f64,
    volatility: f64,
    rate: f64,
    years: f64,
    dividend: f64,
    steps: u32,
    trials: u32,
) -> SimulationParameters {
    SimulationParameters {
        spot: pr_fx(spot),
        strike: pr_fx(strike),
        volatility: pr_fx(volatility),
        risk_free_rate: pr_fx(rate),
        years_to_expiry: pr_fx(years),
        dividend_yield: pr_fx(dividend),
        steps,
        num_trials: trials,
    }
}

fn pr_rng(tag: u8) -> rand::rngs::StdRng {
    let mut seed = [0u8; 32];
    for i in 0..32 {
        seed[i] = tag.wrapping_mul(37).wrapping_add(i as u8).wrapping_mul(101);
    }
    rng_from_seed(&seed)
}

fn erf64(x: f64) -> f64 {
    let t = x.signum();
    let e = x.abs();
    let n: f64 = 0.3275911;
    let a: f64 = 0.254829592;
    let r: f64 = -0.284496736;
    let i: f64 = 1.421413741;
    let l: f64 = -1.453152027;
    let d: f64 = 1.061405429;
    let u = 1.0 / (1.0 + n * e);
    let m = 1.0 - ((((d * u + l) * u + i) * u + r) * u + a) * u * (-e * e).exp();
    t * m
}

fn normal_cdf(x: f64) -> f64 {
    0.5 * (1.0 + erf64(x / 2.0f64.sqrt()))
}

fn normal_pdf(x: f64) -> f64 {
    (-x * x / 2.0).exp() / (2.0 * std::f64::consts::PI).sqrt()
}

fn bs_d(spot: f64, strike: f64, vol: f64, rate: f64, t: f64, div: f64) -> (f64, f64) {
    let d1 = ((spot / strike).ln() + (rate - div + vol * vol / 2.0) * t) / (vol * t.sqrt());
    let d2 = d1 - vol * t.sqrt();
    (d1, d2)
}

fn bs_call(spot: f64, strike: f64, vol: f64, rate: f64, t: f64, div: f64) -> f64 {
    let (d1, d2) = bs_d(spot, strike, vol, rate, t, div);
    spot * (-div * t).exp() * normal_cdf(d1) - strike * (-rate * t).exp() * normal_cdf(d2)
}

fn bs_put(spot: f64, strike: f64, vol: f64, rate: f64, t: f64, div: f64) -> f64 {
    let (d1, d2) = bs_d(spot, strike, vol, rate, t, div);
    strike * (-rate * t).exp() * (1.0 - normal_cdf(d2))
        - spot * (-div * t).exp() * (1.0 - normal_cdf(d1))
}

fn bs_call_delta(spot: f64, strike: f64, vol: f64, rate: f64, t: f64, div: f64) -> f64 {
    let (d1, _) = bs_d(spot, strike, vol, rate, t, div);
    (-div * t).exp() * normal_cdf(d1)
}

fn bs_put_delta(spot: f64, strike: f64, vol: f64, rate: f64, t: f64, div: f64) -> f64 {
    let (d1, _) = bs_d(spot, strike, vol, rate, t, div);
    (-div * t).exp() * (normal_cdf(d1) - 1.0)
}

fn bs_gamma(spot: f64, strike: f64, vol: f64, rate: f64, t: f64, div: f64) -> f64 {
    let (d1, _) = bs_d(spot, strike, vol, rate, t, div);
    ((-div * t).exp() * normal_pdf(d1)) / (spot * vol * t.sqrt())
}

fn bs_vega(spot: f64, strike: f64, vol: f64, rate: f64, t: f64, div: f64) -> f64 {
    let (d1, _) = bs_d(spot, strike, vol, rate, t, div);
    ((-div * t).exp() * normal_pdf(d1) * spot * t.sqrt()) / 100.0
}

fn bs_call_rho(spot: f64, strike: f64, vol: f64, rate: f64, t: f64, div: f64) -> f64 {
    let (_, d2) = bs_d(spot, strike, vol, rate, t, div);
    strike * t * (-rate * t).exp() * normal_cdf(d2) / 100.0
}

fn bs_put_rho(spot: f64, strike: f64, vol: f64, rate: f64, t: f64, div: f64) -> f64 {
    let (_, d2) = bs_d(spot, strike, vol, rate, t, div);
    strike * t * (-rate * t).exp() * (normal_cdf(d2) - 1.0) / 100.0
}

fn bs_call_theta(spot: f64, strike: f64, vol: f64, rate: f64, t: f64, div: f64) -> f64 {
    let (d1, d2) = bs_d(spot, strike, vol, rate, t, div);
    let core = (-(-div * t).exp() * spot * normal_pdf(d1) * vol) / (2.0 * t.sqrt());
    let part1 = rate * strike * (-rate * t).exp();
    let part2 = div * spot * (-div * t).exp();
    core - part1 * normal_cdf(d2) + part2 * normal_cdf(d1)
}

fn bs_put_theta(spot: f64, strike: f64, vol: f64, rate: f64, t: f64, div: f64) -> f64 {
    let (d1, d2) = bs_d(spot, strike, vol, rate, t, div);
    let core = (-(-div * t).exp() * spot * normal_pdf(d1) * vol) / (2.0 * t.sqrt());
    let part1 = rate * strike * (-rate * t).exp();
    let part2 = div * spot * (-div * t).exp();
    core + part1 * normal_cdf(-d2) - part2 * normal_cdf(-d1)
}

#[test]
fn mcfast_valid_price1() {
    let mut rng = pr_rng(1);
    let p = pr_params(100.0, 110.0, 0.25, 0.05, 0.5, 0.02, 100, 1000);
    let actual = bs_call(100.0, 110.0, 0.25, 0.05, 0.5, 0.02);
    let price = pr_f64(&call_price(&p, &mut rng).unwrap());
    assert_eq!((actual - price).abs() <= 1.25, true);
}

#[test]
fn mcfast_valid_price2() {
    let mut rng = pr_rng(2);
    let p = pr_params(90.0, 110.0, 0.2, 0.05, 1.0, 0.02, 100, 10000);
    let actual = bs_call(90.0, 110.0, 0.2, 0.05, 1.0, 0.02);
    let price = pr_f64(&call_price(&p, &mut rng).unwrap());
    assert_eq!((actual - price).abs() <= 1.25, true);
}

#[test]
fn mcfast_valid_price3() {
    let mut rng = pr_rng(3);
    let p = pr_params(130.0, 120.0, 0.25, 0.05, 0.5, 0.02, 100, 1000);
    let actual = bs_call(130.0, 120.0, 0.25, 0.05, 0.5, 0.02);
    let price = pr_f64(&call_price(&p, &mut rng).unwrap());
    assert_eq!((actual - price).abs() <= 1.25, true);
}

#[test]
fn mcfast_valid_price_4() {
    let mut rng = pr_rng(4);
    let p = pr_params(300.0, 270.0, 0.2, 0.09, 1.0, 0.0, 100, 10000);
    let actual = bs_put(300.0, 270.0, 0.2, 0.09, 1.0, 0.0);
    let price = pr_f64(&put_price(&p, &mut rng).unwrap());
    assert_eq!((actual - price).abs() <= 1.0, true);
}

#[test]
fn mcfast_valid_price_av1() {
    let mut rng = pr_rng(5);
    let p = pr_params(112.0, 110.0, 0.2, 0.05, 1.0, 0.02, 100, 10000);
    let actual = bs_call(112.0, 110.0, 0.2, 0.05, 1.0, 0.02);
    let price = pr_f64(&call_price_av(&p, &mut rng).unwrap());
    assert_eq!((actual - price).abs() <= 1.0, true);
}

#[test]
fn mcfast_valid_price_av2() {
    let mut rng = pr_rng(6);
    let p = pr_params(112.0, 110.0, 0.14, 0.12, 1.0, 0.02, 100, 10000);
    let actual = bs_call(112.0, 110.0, 0.14, 0.12, 1.0, 0.02);
    let price = pr_f64(&call_price_av(&p, &mut rng).unwrap());
    assert_eq!((actual - price).abs() <= 1.0, true);
}

#[test]
fn mcfast_valid_call_delta() {
    let mut rng = pr_rng(7);
    let p = pr_params(100.0, 110.0, 0.25, 0.05, 0.5, 0.02, 100, 1000);
    let actual = bs_call_delta(100.0, 110.0, 0.25, 0.05, 0.5, 0.02);
    let delta = pr_f64(&call_delta(&p, &pr_fx(0.001), &mut rng).unwrap());
    assert_eq!((delta - actual).abs() < 0.05, true);
}

#[test]
fn mcfast_valid_put_delta() {
    let mut rng = pr_rng(8);
    let p = pr_params(100.0, 110.0, 0.25, 0.05, 0.5, 0.02, 100, 1000);
    let actual = bs_put_delta(100.0, 110.0, 0.25, 0.05, 0.5, 0.02);
    let delta = pr_f64(&put_delta(&p, &pr_fx(0.001), &mut rng).unwrap());
    assert_eq!((delta - actual).abs() < 0.05, true);
}

#[test]
fn mcfast_valid_gamma() {
    let mut rng = pr_rng(9);
    let p = pr_params(100.0, 110.0, 0.25, 0.05, 0.5, 0.02, 100, 10000);
    let actual = bs_gamma(100.0, 110.0, 0.25, 0.05, 0.5, 0.02);
    let mc_gamma = pr_f64(&gamma(&p, &pr_fx(0.01), &mut rng).unwrap());
    assert_eq!((mc_gamma - actual).abs() < 0.05, true);
}

#[test]
fn mcfast_valid_vega() {
    let mut rng = pr_rng(10);
    let p = pr_params(100.0, 110.0, 0.1, 0.05, 0.5, 0.02, 100, 10000);
    let actual = bs_vega(100.0, 110.0, 0.1, 0.05, 0.5, 0.02);
    let mc_vega = pr_f64(&vega(&p, &pr_fx(0.01), &mut rng).unwrap());
    assert_eq!((mc_vega - actual).abs() < 0.05, true);
}

#[test]
fn mcfast_valid_call_rho() {
    let mut rng = pr_rng(11);
    let p = pr_params(130.0, 120.0, 0.25, 0.05, 0.5, 0.02, 100, 10000);
    let actual = bs_call_rho(130.0, 120.0, 0.25, 0.05, 0.5, 0.02);
    let rho = pr_f64(&call_rho(&p, &pr_fx(0.01), &mut rng).unwrap());
    assert_eq!((rho - actual).abs() < 0.05, true);
}

#[test]
fn mcfast_valid_put_rho() {
    let mut rng = pr_rng(12);
    let p = pr_params(110.0, 120.0, 0.1, 0.1, 0.5, 0.02, 100, 10000);
    let actual = bs_put_rho(110.0, 120.0, 0.1, 0.1, 0.5, 0.02);
    let rho = pr_f64(&put_rho(&p, &pr_fx(0.01), &mut rng).unwrap());
    assert_eq!((rho - actual).abs() < 0.05, true);
}

#[test]
fn mc_simd_valid_price1() {
    let mut rng = pr_rng(13);
    let p = pr_params(100.0, 110.0, 0.25, 0.05, 0.5, 0.02, 100, 1000);
    let actual = bs_call(100.0, 110.0, 0.25, 0.05, 0.5, 0.02);
    let price = pr_f64(&call_price(&p, &mut rng).unwrap());
    assert_eq!((actual - price).abs() <= 1.25, true);
}

#[test]
fn mc_simd_valid_price2() {
    let mut rng = pr_rng(14);
    let p = pr_params(90.0, 110.0, 0.2, 0.05, 1.0, 0.02, 100, 10000);
    let actual = bs_call(90.0, 110.0, 0.2, 0.05, 1.0, 0.02);
    let price = pr_f64(&call_price(&p, &mut rng).unwrap());
    assert_eq!((actual - price).abs() <= 1.25, true);
}

#[test]
fn mc_simd_valid_price3() {
    let mut rng = pr_rng(15);
    let p = pr_params(130.0, 120.0, 0.25, 0.05, 0.5, 0.02, 100, 1000);
    let actual = bs_call(130.0, 120.0, 0.25, 0.05, 0.5, 0.02);
    let price = pr_f64(&call_price(&p, &mut rng).unwrap());
    assert_eq!((actual - price).abs() <= 1.25, true);
}

#[test]
fn mc_simd_valid_price_4() {
    let mut rng = pr_rng(16);
    let p = pr_params(300.0, 270.0, 0.2, 0.09, 1.0, 0.0, 100, 10000);
    let actual = bs_put(300.0, 270.0, 0.2, 0.09, 1.0, 0.0);
    let price = pr_f64(&put_price(&p, &mut rng).unwrap());
    assert_eq!((actual - price).abs() <= 1.0, true);
}

#[test]
fn mc_simd_valid_price_av1() {
    let mut rng = pr_rng(17);
    let p = pr_params(112.0, 110.0, 0.2, 0.05, 1.0, 0.02, 100, 10000);
    let actual = bs_call(112.0, 110.0, 0.2, 0.05, 1.0, 0.02);
    let price = pr_f64(&call_price_av(&p, &mut rng).unwrap());
    assert_eq!((actual - price).abs() <= 1.0, true);
}

#[test]
fn mc_simd_valid_price_av2() {
    let mut rng = pr_rng(18);
    let p = pr_params(112.0, 110.0, 0.14, 0.12, 1.0, 0.02, 100, 10000);
    let actual = bs_call(112.0, 110.0, 0.14, 0.12, 1.0, 0.02);
    let price = pr_f64(&call_price_av(&p, &mut rng).unwrap());
    assert_eq!((actual - price).abs() <= 1.0, true);
}

#[test]
fn valid_price_av3() {
    let mut rng = pr_rng(19);
    let p = pr_params(112.0, 110.0, 0.14, 0.12, 1.0, 0.02, 100, 10000);
    let actual = bs_put(112.0, 110.0, 0.14, 0.12, 1.0, 0.02);
    let price = pr_f64(&put_price_av(&p, &mut rng).unwrap());
    assert_eq!((actual - price).abs() <= 1.0, true);
}

#[test]
fn mc_simd_valid_call_delta() {
    let mut rng = pr_rng(20);
    let p = pr_params(100.0, 110.0, 0.25, 0.05, 0.5, 0.02, 100, 1000);
    let actual = bs_call_delta(100.0, 110.0, 0.25, 0.05, 0.5, 0.02);
    let delta = pr_f64(&call_delta(&p, &pr_fx(0.001), &mut rng).unwrap());
    assert_eq!((delta - actual).abs() < 0.05, true);
}

#[test]
fn mc_simd_valid_put_delta() {
    let mut rng = pr_rng(21);
    let p = pr_params(100.0, 110.0, 0.25, 0.05, 0.5, 0.02, 100, 1000);
    let actual = bs_put_delta(100.0, 110.0, 0.25, 0.05, 0.5, 0.02);
    let delta = pr_f64(&put_delta(&p, &pr_fx(0.001), &mut rng).unwrap());
    assert_eq!((delta - actual).abs() < 0.05, true);
}

#[test]
fn mc_simd_valid_gamma() {
    let mut rng = pr_rng(22);
    let p = pr_params(100.0, 110.0, 0.25, 0.05, 0.5, 0.02, 100, 10000);
    let actual = bs_gamma(100.0, 110.0, 0.25, 0.05, 0.5, 0.02);
    let mc_gamma = pr_f64(&gamma(&p, &pr_fx(0.01), &mut rng).unwrap());
    assert_eq!((mc_gamma - actual).abs() < 0.05, true);
}

#[test]
fn mc_simd_valid_vega() {
    let mut rng = pr_rng(23);
    let p = pr_params(100.0, 110.0, 0.1, 0.05, 0.5, 0.02, 100, 10000);
    let actual = bs_vega(100.0, 110.0, 0.1, 0.05, 0.5, 0.02);
    let mc_vega = pr_f64(&vega(&p, &pr_fx(0.01), &mut rng).unwrap());
    assert_eq!((mc_vega - actual).abs() < 0.05, true);
}

#[test]
fn mc_simd_valid_call_rho() {
    let mut rng = pr_rng(24);
    let p = pr_params(130.0, 120.0, 0.25, 0.05, 0.5, 0.02, 100, 10000);
    let actual = bs_call_rho(130.0, 120.0, 0.25, 0.05, 0.5, 0.02);
    let rho = pr_f64(&call_rho(&p, &pr_fx(0.01), &mut rng).unwrap());
    assert_eq!((rho - actual).abs() < 0.05, true);
}

#[test]
fn mc_simd_valid_put_rho() {
    let mut rng = pr_rng(25);
    let p = pr_params(110.0, 120.0, 0.1, 0.1, 0.5, 0.02, 100, 10000);
    let actual = bs_put_rho(110.0, 120.0, 0.1, 0.1, 0.5, 0.02);
    let rho = pr_f64(&put_rho(&p, &pr_fx(0.01), &mut rng).unwrap());
    assert_eq!((rho - actual).abs() < 0.05, true);
}

#[test]
fn valid_call_theta() {
    let mut rng = pr_rng(26);
    let p = pr_params(110.0, 120.0, 0.1, 0.1, 0.5, 0.02, 100, 10000);
    let actual = bs_call_theta(110.0, 120.0, 0.1, 0.1, 0.5, 0.02);
    let theta = pr_f64(&call_theta(&p, &pr_fx(0.001), &mut rng).unwrap());
    assert_eq!((theta - actual).abs() < 0.1, true);
}

#[test]
fn valid_put_theta() {
    let mut rng = pr_rng(27);
    let p = pr_params(110.0, 120.0, 0.1, 0.1, 0.5, 0.02, 100, 10000);
    let actual = bs_put_theta(110.0, 120.0, 0.1, 0.1, 0.5, 0.02);
    let theta = pr_f64(&put_theta(&p, &pr_fx(0.001), &mut rng).unwrap());
    assert_eq!((theta - actual).abs() < 0.1, true);
}

#[test]
fn valid_put_theta2() {
    let mut rng = pr_rng(28);
    let p = pr_params(130.0, 120.0, 0.1, 0.1, 0.5, 0.02, 100, 10000);
    let actual = bs_put_theta(130.0, 120.0, 0.1, 0.1, 0.5, 0.02);
    let theta = pr_f64(&put_theta(&p, &pr_fx(0.001), &mut rng).unwrap());
    assert_eq!((theta - actual).abs() < 0.1, true);
}

#[test]
fn mc_valid_price1() {
    let mut rng = pr_rng(29);
    let p = pr_params(100.0, 110.0, 0.25, 0.05, 0.5, 0.0, 100, 1000);
    let actual = bs_call(100.0, 110.0, 0.25, 0.05, 0.5, 0.0);
    let price = pr_f64(&call_price(&p, &mut rng).unwrap());
    assert_eq!((actual - price).abs() <= 1.25, true);
}

#[test]
fn mc_valid_price2() {
    let mut rng = pr_rng(30);
    let p = pr_params(105.0, 110.0, 0.25, 0.05, 0.5, 0.02, 100, 10000);
    let actual = bs_call(105.0, 110.0, 0.25, 0.05, 0.5, 0.02);
    let price = pr_f64(&call_price(&p, &mut rng).unwrap());
    assert_eq!((actual - price).abs() <= 1.25, true);
}

#[test]
fn mc_valid_price3() {
    let mut rng = pr_rng(31);
    let p = pr_params(130.0, 120.0, 0.25, 0.05, 0.5, 0.02, 100, 10000);
    let actual = bs_call(130.0, 120.0, 0.25, 0.05, 0.5, 0.02);
    let price = pr_f64(&call_price(&p, &mut rng).unwrap());
    assert_eq!((actual - price).abs() <= 1.25, true);
}

#[test]
fn mc_valid_price_4() {
    let mut rng = pr_rng(32);
    let p = pr_params(112.0, 110.0, 0.2, 0.05, 1.0, 0.02, 100, 10000);
    let actual = bs_put(112.0, 110.0, 0.2, 0.05, 1.0, 0.02);
    let price = pr_f64(&put_price(&p, &mut rng).unwrap());
    assert_eq!((actual - price).abs() <= 1.0, true);
}

#[test]
fn valid_price_5() {
    let mut rng = pr_rng(33);
    let p = pr_params(50.0, 60.0, 0.2, 0.05, 1.0, 0.02, 100, 10000);
    let actual = bs_put(50.0, 60.0, 0.2, 0.05, 1.0, 0.02);
    let price = pr_f64(&put_price(&p, &mut rng).unwrap());
    assert_eq!((actual - price).abs() <= 1.0, true);
}

#[test]
fn valid_price_6() {
    let mut rng = pr_rng(34);
    let p = pr_params(130.0, 100.0, 0.2, 0.1, 1.0, 0.02, 100, 10000);
    let actual = bs_put(130.0, 100.0, 0.2, 0.1, 1.0, 0.02);
    let price = pr_f64(&put_price(&p, &mut rng).unwrap());
    assert_eq!((actual - price).abs() <= 1.0, true);
}

#[test]
fn mc32x8_valid_price1() {
    let mut rng = pr_rng(35);
    let p = pr_params(100.0, 110.0, 0.25, 0.05, 0.5, 0.02, 100, 1000);
    let actual = bs_call(100.0, 110.0, 0.25, 0.05, 0.5, 0.02);
    let price = pr_f64(&call_price(&p, &mut rng).unwrap());
    assert_eq!(actual - 1.25 <= price && price <= actual + 1.25, true);
}

#[test]
fn mc32x8_valid_price2() {
    let mut rng = pr_rng(36);
    let p = pr_params(110.0, 110.0, 0.2, 0.05, 0.5, 0.05, 100, 1000);
    let actual = bs_call(110.0, 110.0, 0.2, 0.05, 0.5, 0.05);
    let price = pr_f64(&call_price(&p, &mut rng).unwrap());
    assert_eq!(actual - 1.25 <= price && price <= actual + 1.25, true);
}

#[test]
fn mc32x8_valid_price3() {
    let mut rng = pr_rng(37);
    let p = pr_params(115.0, 110.0, 0.2, 0.05, 0.5, 0.01, 100, 1000);
    let actual = bs_call(115.0, 110.0, 0.2, 0.05, 0.5, 0.01);
    let price = pr_f64(&call_price(&p, &mut rng).unwrap());
    assert_eq!(actual - 1.25 <= price && price <= actual + 1.25, true);
}

#[test]
fn mc32x8_valid_price_4() {
    let mut rng = pr_rng(38);
    let p = pr_params(115.0, 110.0, 0.2, 0.05, 0.5, 0.01, 100, 1000);
    let actual = bs_put(115.0, 110.0, 0.2, 0.05, 0.5, 0.01);
    let price = pr_f64(&put_price(&p, &mut rng).unwrap());
    assert_eq!(actual - 1.25 <= price && price <= actual + 1.25, true);
}
