//! Monte Carlo pricing of European options on a verified fixed-point core.
//!
//! The engine simulates geometric Brownian motion paths in lanes of eight,
//! drawing uniform deviates from a seeded counter-based random stream,
//! turning them into normal increments with the Box-Muller transform,
//! accumulating each path's increments, and applying a single exponential
//! per path to obtain the terminal price multiplier.  Finite-difference
//! Greek estimators re-price bumped scenarios over the same simulated
//! paths (common random numbers).
//!
//! All arithmetic is carried out on [`fixed::Fixed`], a signed Q32.32
//! fixed-point type, so that every numeric step has an exact contract.

pub mod analytic;
pub mod engine;
pub mod laws;
pub mod fixed;
pub mod math;
pub mod stream;
