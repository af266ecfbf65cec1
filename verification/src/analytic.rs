//! The closed-form Black-Scholes reference pricer.
//!
//! It is not used by the simulation engine itself: it exists so that
//! Monte Carlo output can be cross-validated against the analytic
//! price and sensitivities.  The normal distribution function comes
//! from the Abramowitz-Stegun rational polynomial for the error
//! function, accurate to a few parts in `10^7` — far inside the Monte
//! Carlo tolerance bands it is compared against.
//!
//! Every function requires strictly positive spot, strike, volatility
//! and expiry; a divisor that a degenerate rounding would bring to zero
//! is floored at the smallest representable positive value.

use vstd::prelude::*;

use crate::fixed::{Fixed, SCALE};
use crate::math::{
    fx_exp, fx_ln, fx_sqrt, lemma_s_sqrt_props, lemma_s_times_nonneg, s_exp, s_ln, s_minus,
    s_plus, s_sqrt, s_times,
};

verus! {

/// sqrt(2 * pi) in Q32.32.
pub const SQRT_TWO_PI: u64 = 10765886463;

// The rational-approximation constants of the error function.
pub const ERF_P: u64 = 1406993061;

pub const ERF_A1: u64 = 1094484764;

pub const ERF_A2: u64 = 1221904177;

pub const ERF_A3: u64 = 6104925532;

pub const ERF_A4: u64 = 6241240432;

pub const ERF_A5: u64 = 4558701605;

/// A value floored at the smallest representable positive unit: the
/// guard applied to divisors that honest inputs keep positive anyway.
pub open spec fn s_pos_floor(x: int) -> int {
    if x < 1 {
        1
    } else {
        x
    }
}

fn pos_floor(x: &Fixed) -> (r: Fixed)
    ensures
        r@ == s_pos_floor(x@),
        !r.neg,
        r.mag >= 1,
{
    if x.neg || x.mag == 0 {
        Fixed::from_parts(false, 1)
    } else {
        *x
    }
}

/// The error function by the Abramowitz-Stegun rational polynomial in
/// `u = 1 / (1 + p |x|)`, with the sign restored at the end.
pub open spec fn s_erf(x: int) -> int {
    let e = if x >= 0 {
        x
    } else {
        -x
    };
    let u = crate::math::s_divide(SCALE as int, s_plus(SCALE as int, s_times(ERF_P as int, e)));
    let poly = s_times(
        s_plus(
            s_times(
                s_minus(
                    s_times(s_plus(s_times(s_minus(s_times(ERF_A5 as int, u), ERF_A4 as int), u), ERF_A3 as int), u),
                    ERF_A2 as int,
                ),
                u,
            ),
            ERF_A1 as int,
        ),
        u,
    );
    let m = s_minus(SCALE as int, s_times(poly, s_exp(-s_times(e, e))));
    if x >= 0 {
        m
    } else {
        -m
    }
}

/// The error function; see [`s_erf`].
pub fn erf(x: &Fixed) -> (r: Fixed)
    ensures
        r@ == s_erf(x@),
{
    let e = x.abs_val();
    let den = Fixed::one().plus(&Fixed::from_parts(false, ERF_P).times(&e));
    proof {
        lemma_s_times_nonneg(ERF_P as int, e@);
    }
    let u = Fixed::one().divide(&den);
    let poly = Fixed::from_parts(false, ERF_A5)
        .times(&u)
        .minus(&Fixed::from_parts(false, ERF_A4))
        .times(&u)
        .plus(&Fixed::from_parts(false, ERF_A3))
        .times(&u)
        .minus(&Fixed::from_parts(false, ERF_A2))
        .times(&u)
        .plus(&Fixed::from_parts(false, ERF_A1))
        .times(&u);
    let gauss = fx_exp(&e.times(&e).neg_val());
    let m = Fixed::one().minus(&poly.times(&gauss));
    if x.is_negative() {
        m.neg_val()
    } else {
        m
    }
}

/// The standard normal distribution function `(1 + erf(x / sqrt 2)) / 2`.
pub open spec fn s_normal_cdf(x: int) -> int {
    crate::fixed::tdiv(
        s_plus(SCALE as int, s_erf(crate::math::s_divide(x, s_sqrt2_v()))),
        2,
    )
}

/// The square root of two as a value, shared by the distribution
/// function.
pub open spec fn s_sqrt2_v() -> int {
    s_sqrt(2 * (SCALE as int) * (SCALE as int))
}

/// The standard normal distribution function; see [`s_normal_cdf`].
pub fn normal_cdf(x: &Fixed) -> (r: Fixed)
    ensures
        r@ == s_normal_cdf(x@),
{
    let sqrt2 = fx_sqrt(&Fixed::from_int(2));
    proof {
        lemma_s_sqrt_props(2 * (SCALE as int) * (SCALE as int));
        assert(crate::math::sq(0) == 0 && crate::math::sq(1) == 1);
        assert(sqrt2@ >= 1);
    }
    let arg = x.divide(&sqrt2);
    Fixed::one().plus(&erf(&arg)).divide_int(2)
}

/// The standard normal density `exp(-x^2 / 2) / sqrt(2 pi)`.
pub open spec fn s_normal_pdf(x: int) -> int {
    crate::math::s_divide(
        s_exp(-crate::fixed::tdiv(s_times(x, x), 2)),
        SQRT_TWO_PI as int,
    )
}

/// The standard normal density; see [`s_normal_pdf`].
pub fn normal_pdf(x: &Fixed) -> (r: Fixed)
    ensures
        r@ == s_normal_pdf(x@),
{
    fx_exp(&x.times(x).divide_int(2).neg_val()).divide(&Fixed::from_parts(false, SQRT_TWO_PI))
}

/// The two Black-Scholes quantiles: `d1` is the log-moneyness plus the
/// drift over the deviation `vol * sqrt(t)`, and `d2` lies one
/// deviation below it.  The moneyness ratio and the deviation are
/// floored at the smallest positive value before use as logarithm
/// argument and divisor.
pub open spec fn s_d1(spot: int, strike: int, vol: int, rate: int, yld: int, t: int) -> int {
    let ratio = s_pos_floor(crate::math::s_divide(spot, strike));
    let half_var = crate::fixed::tdiv(s_times(vol, vol), 2);
    let num = s_plus(s_ln(ratio), s_times(s_plus(s_minus(rate, yld), half_var), t));
    crate::math::s_divide(num, s_pos_floor(s_times(vol, s_sqrt(t * (SCALE as int)))))
}

pub open spec fn s_d2(spot: int, strike: int, vol: int, rate: int, yld: int, t: int) -> int {
    s_minus(s_d1(spot, strike, vol, rate, yld, t), s_times(vol, s_sqrt(t * (SCALE as int))))
}

fn quantiles(
    spot: &Fixed,
    strike: &Fixed,
    volatility: &Fixed,
    risk_free_rate: &Fixed,
    years_to_expiry: &Fixed,
    dividend_yield: &Fixed,
) -> (r: (Fixed, Fixed))
    requires
        spot@ > 0,
        strike@ > 0,
        volatility@ > 0,
        years_to_expiry@ > 0,
    ensures
        r.0@ == s_d1(
            spot@,
            strike@,
            volatility@,
            risk_free_rate@,
            dividend_yield@,
            years_to_expiry@,
        ),
        r.1@ == s_d2(
            spot@,
            strike@,
            volatility@,
            risk_free_rate@,
            dividend_yield@,
            years_to_expiry@,
        ),
{
    let ratio = pos_floor(&spot.divide(strike));
    let half_var = volatility.times(volatility).divide_int(2);
    let num = fx_ln(&ratio).plus(
        &risk_free_rate.minus(dividend_yield).plus(&half_var).times(years_to_expiry),
    );
    let sidt = volatility.times(&fx_sqrt(years_to_expiry));
    let d1 = num.divide(&pos_floor(&sidt));
    let d2 = d1.minus(&sidt);
    (d1, d2)
}

/// The analytic price of a European call,
/// `spot e^(-yT) N(d1) - strike e^(-rT) N(d2)`.
pub open spec fn s_call_price(
    spot: int,
    strike: int,
    vol: int,
    rate: int,
    t: int,
    yld: int,
) -> int {
    let d1 = s_d1(spot, strike, vol, rate, yld, t);
    let d2 = s_d2(spot, strike, vol, rate, yld, t);
    s_minus(
        s_times(s_times(spot, s_exp(-s_times(yld, t))), s_normal_cdf(d1)),
        s_times(s_times(strike, s_exp(-s_times(rate, t))), s_normal_cdf(d2)),
    )
}

/// The analytic call price; see [`s_call_price`].
pub fn call_price(
    spot: &Fixed,
    strike: &Fixed,
    volatility: &Fixed,
    risk_free_rate: &Fixed,
    years_to_expiry: &Fixed,
    dividend_yield: &Fixed,
) -> (r: Fixed)
    requires
        spot@ > 0,
        strike@ > 0,
        volatility@ > 0,
        years_to_expiry@ > 0,
    ensures
        r@ == s_call_price(
            spot@,
            strike@,
            volatility@,
            risk_free_rate@,
            years_to_expiry@,
            dividend_yield@,
        ),
{
    let (d1, d2) = quantiles(
        spot,
        strike,
        volatility,
        risk_free_rate,
        years_to_expiry,
        dividend_yield,
    );
    let disc_y = fx_exp(&dividend_yield.times(years_to_expiry).neg_val());
    let disc_r = fx_exp(&risk_free_rate.times(years_to_expiry).neg_val());
    spot.times(&disc_y).times(&normal_cdf(&d1)).minus(
        &strike.times(&disc_r).times(&normal_cdf(&d2)),
    )
}

/// The analytic price of a European put,
/// `strike e^(-rT) (1 - N(d2)) - spot e^(-yT) (1 - N(d1))`.
pub open spec fn s_put_price(
    spot: int,
    strike: int,
    vol: int,
    rate: int,
    t: int,
    yld: int,
) -> int {
    let d1 = s_d1(spot, strike, vol, rate, yld, t);
    let d2 = s_d2(spot, strike, vol, rate, yld, t);
    s_minus(
        s_times(
            s_times(strike, s_exp(-s_times(rate, t))),
            s_minus(SCALE as int, s_normal_cdf(d2)),
        ),
        s_times(
            s_times(spot, s_exp(-s_times(yld, t))),
            s_minus(SCALE as int, s_normal_cdf(d1)),
        ),
    )
}

/// The analytic put price; see [`s_put_price`].
pub fn put_price(
    spot: &Fixed,
    strike: &Fixed,
    volatility: &Fixed,
    risk_free_rate: &Fixed,
    years_to_expiry: &Fixed,
    dividend_yield: &Fixed,
) -> (r: Fixed)
    requires
        spot@ > 0,
        strike@ > 0,
        volatility@ > 0,
        years_to_expiry@ > 0,
    ensures
        r@ == s_put_price(
            spot@,
            strike@,
            volatility@,
            risk_free_rate@,
            years_to_expiry@,
            dividend_yield@,
        ),
{
    let (d1, d2) = quantiles(
        spot,
        strike,
        volatility,
        risk_free_rate,
        years_to_expiry,
        dividend_yield,
    );
    let disc_y = fx_exp(&dividend_yield.times(years_to_expiry).neg_val());
    let disc_r = fx_exp(&risk_free_rate.times(years_to_expiry).neg_val());
    strike.times(&disc_r).times(&Fixed::one().minus(&normal_cdf(&d2))).minus(
        &spot.times(&disc_y).times(&Fixed::one().minus(&normal_cdf(&d1))),
    )
}

/// The analytic delta of a call, `e^(-yT) N(d1)`.
pub open spec fn s_call_delta(
    spot: int,
    strike: int,
    vol: int,
    rate: int,
    t: int,
    yld: int,
) -> int {
    s_times(s_exp(-s_times(yld, t)), s_normal_cdf(s_d1(spot, strike, vol, rate, yld, t)))
}

/// The analytic call delta; see [`s_call_delta`].
pub fn call_delta(
    spot: &Fixed,
    strike: &Fixed,
    volatility: &Fixed,
    risk_free_rate: &Fixed,
    years_to_expiry: &Fixed,
    dividend_yield: &Fixed,
) -> (r: Fixed)
    requires
        spot@ > 0,
        strike@ > 0,
        volatility@ > 0,
        years_to_expiry@ > 0,
    ensures
        r@ == s_call_delta(
            spot@,
            strike@,
            volatility@,
            risk_free_rate@,
            years_to_expiry@,
            dividend_yield@,
        ),
{
    let (d1, _d2) = quantiles(
        spot,
        strike,
        volatility,
        risk_free_rate,
        years_to_expiry,
        dividend_yield,
    );
    fx_exp(&dividend_yield.times(years_to_expiry).neg_val()).times(&normal_cdf(&d1))
}

/// The analytic delta of a put, `e^(-yT) (N(d1) - 1)`.
pub open spec fn s_put_delta(
    spot: int,
    strike: int,
    vol: int,
    rate: int,
    t: int,
    yld: int,
) -> int {
    s_times(
        s_exp(-s_times(yld, t)),
        s_minus(s_normal_cdf(s_d1(spot, strike, vol, rate, yld, t)), SCALE as int),
    )
}

/// The analytic put delta; see [`s_put_delta`].
pub fn put_delta(
    spot: &Fixed,
    strike: &Fixed,
    volatility: &Fixed,
    risk_free_rate: &Fixed,
    years_to_expiry: &Fixed,
    dividend_yield: &Fixed,
) -> (r: Fixed)
    requires
        spot@ > 0,
        strike@ > 0,
        volatility@ > 0,
        years_to_expiry@ > 0,
    ensures
        r@ == s_put_delta(
            spot@,
            strike@,
            volatility@,
            risk_free_rate@,
            years_to_expiry@,
            dividend_yield@,
        ),
{
    let (d1, _d2) = quantiles(
        spot,
        strike,
        volatility,
        risk_free_rate,
        years_to_expiry,
        dividend_yield,
    );
    fx_exp(&dividend_yield.times(years_to_expiry).neg_val()).times(
        &normal_cdf(&d1).minus(&Fixed::one()),
    )
}

/// The analytic gamma, `e^(-yT) pdf(d1) / (spot vol sqrt(t))`.
pub open spec fn s_gamma_ref(
    spot: int,
    strike: int,
    vol: int,
    rate: int,
    t: int,
    yld: int,
) -> int {
    let d1 = s_d1(spot, strike, vol, rate, yld, t);
    crate::math::s_divide(
        s_times(s_exp(-s_times(yld, t)), s_normal_pdf(d1)),
        s_pos_floor(s_times(spot, s_times(vol, s_sqrt(t * (SCALE as int))))),
    )
}

/// The analytic gamma; see [`s_gamma_ref`].
pub fn gamma(
    spot: &Fixed,
    strike: &Fixed,
    volatility: &Fixed,
    risk_free_rate: &Fixed,
    years_to_expiry: &Fixed,
    dividend_yield: &Fixed,
) -> (r: Fixed)
    requires
        spot@ > 0,
        strike@ > 0,
        volatility@ > 0,
        years_to_expiry@ > 0,
    ensures
        r@ == s_gamma_ref(
            spot@,
            strike@,
            volatility@,
            risk_free_rate@,
            years_to_expiry@,
            dividend_yield@,
        ),
{
    let (d1, _d2) = quantiles(
        spot,
        strike,
        volatility,
        risk_free_rate,
        years_to_expiry,
        dividend_yield,
    );
    let num = fx_exp(&dividend_yield.times(years_to_expiry).neg_val()).times(&normal_pdf(&d1));
    let den = pos_floor(&spot.times(&volatility.times(&fx_sqrt(years_to_expiry))));
    num.divide(&den)
}

/// The analytic vega, `e^(-yT) pdf(d1) spot sqrt(t) / 100`.
pub open spec fn s_vega_ref(
    spot: int,
    strike: int,
    vol: int,
    rate: int,
    t: int,
    yld: int,
) -> int {
    let d1 = s_d1(spot, strike, vol, rate, yld, t);
    crate::fixed::tdiv(
        s_times(
            s_times(s_exp(-s_times(yld, t)), s_normal_pdf(d1)),
            s_times(spot, s_sqrt(t * (SCALE as int))),
        ),
        100,
    )
}

/// The analytic vega; see [`s_vega_ref`].
pub fn vega(
    spot: &Fixed,
    strike: &Fixed,
    volatility: &Fixed,
    risk_free_rate: &Fixed,
    years_to_expiry: &Fixed,
    dividend_yield: &Fixed,
) -> (r: Fixed)
    requires
        spot@ > 0,
        strike@ > 0,
        volatility@ > 0,
        years_to_expiry@ > 0,
    ensures
        r@ == s_vega_ref(
            spot@,
            strike@,
            volatility@,
            risk_free_rate@,
            years_to_expiry@,
            dividend_yield@,
        ),
{
    let (d1, _d2) = quantiles(
        spot,
        strike,
        volatility,
        risk_free_rate,
        years_to_expiry,
        dividend_yield,
    );
    fx_exp(&dividend_yield.times(years_to_expiry).neg_val()).times(&normal_pdf(&d1)).times(
        &spot.times(&fx_sqrt(years_to_expiry)),
    ).divide_int(100)
}

/// The analytic rho of a call, `strike t e^(-rT) N(d2) / 100`.
pub open spec fn s_call_rho(
    spot: int,
    strike: int,
    vol: int,
    rate: int,
    t: int,
    yld: int,
) -> int {
    let d2 = s_d2(spot, strike, vol, rate, yld, t);
    crate::fixed::tdiv(
        s_times(s_times(s_times(strike, t), s_exp(-s_times(rate, t))), s_normal_cdf(d2)),
        100,
    )
}

/// The analytic call rho; see [`s_call_rho`].
pub fn call_rho(
    spot: &Fixed,
    strike: &Fixed,
    volatility: &Fixed,
    risk_free_rate: &Fixed,
    years_to_expiry: &Fixed,
    dividend_yield: &Fixed,
) -> (r: Fixed)
    requires
        spot@ > 0,
        strike@ > 0,
        volatility@ > 0,
        years_to_expiry@ > 0,
    ensures
        r@ == s_call_rho(
            spot@,
            strike@,
            volatility@,
            risk_free_rate@,
            years_to_expiry@,
            dividend_yield@,
        ),
{
    let (_d1, d2) = quantiles(
        spot,
        strike,
        volatility,
        risk_free_rate,
        years_to_expiry,
        dividend_yield,
    );
    strike.times(years_to_expiry).times(
        &fx_exp(&risk_free_rate.times(years_to_expiry).neg_val()),
    ).times(&normal_cdf(&d2)).divide_int(100)
}

/// The analytic rho of a put, `strike t e^(-rT) (N(d2) - 1) / 100`.
pub open spec fn s_put_rho(
    spot: int,
    strike: int,
    vol: int,
    rate: int,
    t: int,
    yld: int,
) -> int {
    let d2 = s_d2(spot, strike, vol, rate, yld, t);
    crate::fixed::tdiv(
        s_times(
            s_times(s_times(strike, t), s_exp(-s_times(rate, t))),
            s_minus(s_normal_cdf(d2), SCALE as int),
        ),
        100,
    )
}

/// The analytic put rho; see [`s_put_rho`].
pub fn put_rho(
    spot: &Fixed,
    strike: &Fixed,
    volatility: &Fixed,
    risk_free_rate: &Fixed,
    years_to_expiry: &Fixed,
    dividend_yield: &Fixed,
) -> (r: Fixed)
    requires
        spot@ > 0,
        strike@ > 0,
        volatility@ > 0,
        years_to_expiry@ > 0,
    ensures
        r@ == s_put_rho(
            spot@,
            strike@,
            volatility@,
            risk_free_rate@,
            years_to_expiry@,
            dividend_yield@,
        ),
{
    let (_d1, d2) = quantiles(
        spot,
        strike,
        volatility,
        risk_free_rate,
        years_to_expiry,
        dividend_yield,
    );
    strike.times(years_to_expiry).times(
        &fx_exp(&risk_free_rate.times(years_to_expiry).neg_val()),
    ).times(&normal_cdf(&d2).minus(&Fixed::one())).divide_int(100)
}

/// The shared core of the two thetas: the decay of the optionality,
/// `-e^(-yT) spot pdf(d1) vol / (2 sqrt(t))`, and the two carry parts.
pub open spec fn s_theta_parts(
    spot: int,
    strike: int,
    vol: int,
    rate: int,
    t: int,
    yld: int,
) -> (int, int, int) {
    let d1 = s_d1(spot, strike, vol, rate, yld, t);
    let core = crate::math::s_divide(
        s_times(
            -s_times(s_times(s_exp(-s_times(yld, t)), spot), s_normal_pdf(d1)),
            vol,
        ),
        s_pos_floor(s_times(2 * (SCALE as int), s_sqrt(t * (SCALE as int)))),
    );
    let part1 = s_times(s_times(rate, strike), s_exp(-s_times(rate, t)));
    let part2 = s_times(s_times(yld, spot), s_exp(-s_times(yld, t)));
    (core, part1, part2)
}

/// The analytic theta of a call,
/// `core - part1 N(d2) + part2 N(d1)` over [`s_theta_parts`].
pub open spec fn s_call_theta(
    spot: int,
    strike: int,
    vol: int,
    rate: int,
    t: int,
    yld: int,
) -> int {
    let (core, part1, part2) = s_theta_parts(spot, strike, vol, rate, t, yld);
    let d1 = s_d1(spot, strike, vol, rate, yld, t);
    let d2 = s_d2(spot, strike, vol, rate, yld, t);
    s_plus(
        s_minus(core, s_times(part1, s_normal_cdf(d2))),
        s_times(part2, s_normal_cdf(d1)),
    )
}

/// The analytic theta of a put,
/// `core + part1 N(-d2) - part2 N(-d1)` over [`s_theta_parts`].
pub open spec fn s_put_theta(
    spot: int,
    strike: int,
    vol: int,
    rate: int,
    t: int,
    yld: int,
) -> int {
    let (core, part1, part2) = s_theta_parts(spot, strike, vol, rate, t, yld);
    let d1 = s_d1(spot, strike, vol, rate, yld, t);
    let d2 = s_d2(spot, strike, vol, rate, yld, t);
    s_minus(
        s_plus(core, s_times(part1, s_normal_cdf(-d2))),
        s_times(part2, s_normal_cdf(-d1)),
    )
}

fn theta_parts(
    spot: &Fixed,
    strike: &Fixed,
    volatility: &Fixed,
    risk_free_rate: &Fixed,
    years_to_expiry: &Fixed,
    dividend_yield: &Fixed,
) -> (r: (Fixed, Fixed, Fixed))
    requires
        spot@ > 0,
        strike@ > 0,
        volatility@ > 0,
        years_to_expiry@ > 0,
    ensures
        ({
            let (core, part1, part2) = s_theta_parts(
                spot@,
                strike@,
                volatility@,
                risk_free_rate@,
                years_to_expiry@,
                dividend_yield@,
            );
            r.0@ == core && r.1@ == part1 && r.2@ == part2
        }),
{
    let (d1, _d2) = quantiles(
        spot,
        strike,
        volatility,
        risk_free_rate,
        years_to_expiry,
        dividend_yield,
    );
    let disc_y = fx_exp(&dividend_yield.times(years_to_expiry).neg_val());
    let disc_r = fx_exp(&risk_free_rate.times(years_to_expiry).neg_val());
    let num = disc_y.times(spot).times(&normal_pdf(&d1)).neg_val().times(volatility);
    let den = pos_floor(&Fixed::from_int(2).times(&fx_sqrt(years_to_expiry)));
    let core = num.divide(&den);
    let part1 = risk_free_rate.times(strike).times(&disc_r);
    let part2 = dividend_yield.times(spot).times(&disc_y);
    (core, part1, part2)
}

/// The analytic call theta; see [`s_call_theta`].
pub fn call_theta(
    spot: &Fixed,
    strike: &Fixed,
    volatility: &Fixed,
    risk_free_rate: &Fixed,
    years_to_expiry: &Fixed,
    dividend_yield: &Fixed,
) -> (r: Fixed)
    requires
        spot@ > 0,
        strike@ > 0,
        volatility@ > 0,
        years_to_expiry@ > 0,
    ensures
        r@ == s_call_theta(
            spot@,
            strike@,
            volatility@,
            risk_free_rate@,
            years_to_expiry@,
            dividend_yield@,
        ),
{
    let (core, part1, part2) = theta_parts(
        spot,
        strike,
        volatility,
        risk_free_rate,
        years_to_expiry,
        dividend_yield,
    );
    let (d1, d2) = quantiles(
        spot,
        strike,
        volatility,
        risk_free_rate,
        years_to_expiry,
        dividend_yield,
    );
    core.minus(&part1.times(&normal_cdf(&d2))).plus(&part2.times(&normal_cdf(&d1)))
}

/// The analytic put theta; see [`s_put_theta`].
pub fn put_theta(
    spot: &Fixed,
    strike: &Fixed,
    volatility: &Fixed,
    risk_free_rate: &Fixed,
    years_to_expiry: &Fixed,
    dividend_yield: &Fixed,
) -> (r: Fixed)
    requires
        spot@ > 0,
        strike@ > 0,
        volatility@ > 0,
        years_to_expiry@ > 0,
    ensures
        r@ == s_put_theta(
            spot@,
            strike@,
            volatility@,
            risk_free_rate@,
            years_to_expiry@,
            dividend_yield@,
        ),
{
    let (core, part1, part2) = theta_parts(
        spot,
        strike,
        volatility,
        risk_free_rate,
        years_to_expiry,
        dividend_yield,
    );
    let (d1, d2) = quantiles(
        spot,
        strike,
        volatility,
        risk_free_rate,
        years_to_expiry,
        dividend_yield,
    );
    core.plus(&part1.times(&normal_cdf(&d2.neg_val()))).minus(
        &part2.times(&normal_cdf(&d1.neg_val())),
    )
}

} // verus!
