//! Statistical checks on the uniform stream and on its seeding.

use mcpricer::stream::{next_uniform, rng_from_seed};

fn st_seed(tag: u8) -> [u8; 32] {
    let mut seed = [0u8; 32];
    for i in 0..32 {
        seed[i] = tag.wrapping_mul(53).wrapping_add(i as u8).wrapping_mul(7);
    }
    seed
}

fn st_uniform_f64(rng: &mut rand::rngs::StdRng) -> f64 {
    let u = next_uniform(rng);
    (u.mag as f64) / 4294967296.0
}

fn st_uniform_distribution(tag: u8, samples: usize, diff_limit: f64) {
    let mut rng = rng_from_seed(&st_seed(tag));
    let mut dist: Vec<f64> = Vec::with_capacity(samples);
    let mut sum = 0.0;
    for _ in 0..samples {
        let value = st_uniform_f64(&mut rng);
        sum += value;
        dist.push(value);
    }
    let mean = sum / (samples as f64);

    let mut squared_diffs = 0.0;
    for n in dist {
        squared_diffs += (n - mean) * (n - mean);
    }

    // In a uniform distribution over [a, b], the mean is (a + b) / 2,
    // the variance (b - a)^2 / 12, and the standard deviation its root.
    let expected_mean = 0.5;
    let mean_difference = (mean - expected_mean).abs();

    let variance = squared_diffs / (samples as f64);
    let expected_variance = 1.0 / 12.0;
    let variance_difference = (variance - expected_variance).abs();

    let stddev = variance.sqrt();
    let expected_stddev = expected_variance.sqrt();
    let stddev_difference = (stddev - expected_stddev).abs();

    assert!(
        mean_difference <= diff_limit,
        "Mean difference was more than {diff_limit:.5}: {mean_difference:.5}. Expected mean: {expected_mean:.6}, actual mean: {mean:.6}"
    );
    assert!(
        variance_difference <= diff_limit,
        "Variance difference was more than {diff_limit:.5}: {variance_difference:.5}. Expected variance: {expected_variance:.6}, actual variance: {variance:.6}"
    );
    assert!(
        stddev_difference <= diff_limit,
        "Std deviation difference was more than {diff_limit:.5}: {stddev_difference:.5}. Expected std deviation: {expected_stddev:.6}, actual std deviation: {stddev:.6}"
    );
}

#[test]
fn test_uniform_distribution_100() {
    st_uniform_distribution(61, 100, 0.03);
}

#[test]
fn test_uniform_distribution_1000() {
    st_uniform_distribution(62, 1000, 0.015);
}

#[test]
fn test_uniform_distribution_100000() {
    st_uniform_distribution(63, 100000, 0.001);
}

#[test]
fn uniform_strictly_inside_unit_interval() {
    let mut rng = rng_from_seed(&st_seed(64));
    for _ in 0..10000 {
        let u = next_uniform(&mut rng);
        assert!(!u.neg);
        assert!(u.mag >= 1);
        assert!(u.mag < 4294967296);
    }
}

#[test]
fn stream_same_seed_same_words() {
    let mut a = rng_from_seed(&st_seed(65));
    let mut b = rng_from_seed(&st_seed(65));
    for _ in 0..64 {
        assert_eq!(next_uniform(&mut a).mag, next_uniform(&mut b).mag);
    }
}

#[test]
fn stream_different_seeds_diverge() {
    let mut a = rng_from_seed(&st_seed(66));
    let mut b = rng_from_seed(&st_seed(67));
    let mut any_diff = false;
    for _ in 0..64 {
        if next_uniform(&mut a).mag != next_uniform(&mut b).mag {
            any_diff = true;
        }
    }
    assert!(any_diff);
}

#[test]
fn stream_words_vary() {
    let mut rng = rng_from_seed(&st_seed(68));
    let first = next_uniform(&mut rng).mag;
    let mut any_diff = false;
    for _ in 0..64 {
        if next_uniform(&mut rng).mag != first {
            any_diff = true;
        }
    }
    assert!(any_diff);
}
