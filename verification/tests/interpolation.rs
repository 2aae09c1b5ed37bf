use lagrange::interp::{
    basis_term, has_duplicate_abscissa, lagrange_interpolation, Point,
};
use lagrange::partition::{
    parallel_lagrange_interpolation, parallel_lagrange_interpolation_balanced,
};

fn pts(v: &[(f64, f64)]) -> Vec<Point> {
    v.iter().map(|&(x, y)| Point { x: x.to_bits(), y: y.to_bits() }).collect()
}

fn eval(x: f64, v: &[(f64, f64)]) -> f64 {
    f64::from_bits(lagrange_interpolation(x.to_bits(), &pts(v)))
}

fn eval_parallel(x: f64, v: &[(f64, f64)], w: usize) -> f64 {
    f64::from_bits(parallel_lagrange_interpolation(x.to_bits(), &pts(v), w))
}

fn eval_balanced(x: f64, v: &[(f64, f64)], w: usize) -> f64 {
    f64::from_bits(parallel_lagrange_interpolation_balanced(x.to_bits(), &pts(v), w))
}

/// The direct Lagrange summation on hardware doubles, in the same
/// operation order as the library: the oracle for bit-identity tests.
fn hardware_eval(x: f64, samples: &[(f64, f64)]) -> f64 {
    let n = samples.len();
    let mut result = 0.0f64;
    for i in 0..n {
        let mut term = samples[i].1;
        for j in 0..n {
            if i != j {
                term *= (x - samples[j].0) / (samples[i].0 - samples[j].0);
            }
        }
        result += term;
    }
    result
}

fn cos_samples(n: usize) -> Vec<(f64, f64)> {
    (0..n).map(|i| (i as f64, (i as f64).cos())).collect()
}

fn rel_close(a: f64, b: f64, tol: f64) -> bool {
    let scale = a.abs().max(b.abs()).max(1.0);
    (a - b).abs() <= tol * scale
}

#[test]
fn empty_input_is_exact_zero() {
    assert_eq!(eval(2.5, &[]), 0.0);
    assert_eq!(eval(-17.25, &[]).to_bits(), 0u64);
}

#[test]
fn single_sample_is_constant() {
    for &x in &[-100.0, 0.0, 0.5, 5.0, 1e12] {
        let r = eval(x, &[(5.0, 3.0)]);
        assert_eq!(r, 3.0);
    }
}

#[test]
fn reproduces_every_sample() {
    let samples = cos_samples(7);
    for &(xi, yi) in &samples {
        let r = eval(xi, &samples);
        assert!(rel_close(r, yi, 1e-9), "at x = {}: {} vs {}", xi, r, yi);
    }
}

#[test]
fn matches_hardware_doubles_bit_for_bit() {
    let samples = cos_samples(9);
    for &x in &[0.0, 0.5, 3.25, -2.0, 11.75] {
        let ours = eval(x, &samples);
        let oracle = hardware_eval(x, &samples);
        assert_eq!(ours.to_bits(), oracle.to_bits(), "at x = {}", x);
    }
}

#[test]
fn parallel_matches_sequential_on_even_splits() {
    let samples = cos_samples(8);
    let x = 2.625;
    let seq = eval(x, &samples);
    for &w in &[1usize, 2, 4, 8] {
        let par = eval_parallel(x, &samples, w);
        assert!(rel_close(par, seq, 1e-6), "w = {}: {} vs {}", w, par, seq);
        let bal = eval_balanced(x, &samples, w);
        assert_eq!(par.to_bits(), bal.to_bits(), "w = {}: balanced must agree on even splits", w);
    }
}

#[test]
fn floor_policy_drops_remainder_index() {
    // n = 5, two workers: blocks {0, 1} and {2, 3}; index 4 is covered by
    // no worker under the floor policy, so its basis term is left out.
    let samples = cos_samples(5);
    let x = 1.375;

    // The value the floor policy owes: terms 0..4 only (each computed
    // against all five samples), grouped per worker, partials reduced in
    // worker order.
    let term = |i: usize| -> f64 {
        let mut t = samples[i].1;
        for j in 0..samples.len() {
            if i != j {
                t *= (x - samples[j].0) / (samples[i].0 - samples[j].0);
            }
        }
        t
    };
    let p0 = 0.0f64 + term(0) + term(1);
    let p1 = 0.0f64 + term(2) + term(3);
    let expected_floor = 0.0f64 + p0 + p1;
    assert_eq!(eval_parallel(x, &samples, 2).to_bits(), expected_floor.to_bits());

    // The dropped sample's ordinate cannot influence the floor value...
    let mut tampered = samples.clone();
    tampered[4].1 = 1.0e6;
    assert_eq!(
        eval_parallel(x, &samples, 2).to_bits(),
        eval_parallel(x, &tampered, 2).to_bits()
    );
    // ...but it does influence the sequential value and the balanced value.
    assert_ne!(eval(x, &samples).to_bits(), eval(x, &tampered).to_bits());
    assert_ne!(
        eval_balanced(x, &samples, 2).to_bits(),
        eval_balanced(x, &tampered, 2).to_bits()
    );

    // The balanced policy keeps index 4 (last worker takes the remainder
    // block {2, 3, 4}) and stays close to the sequential value.
    let bal = eval_balanced(x, &samples, 2);
    assert!(rel_close(bal, eval(x, &samples), 1e-6));
    let q1 = 0.0f64 + term(2) + term(3) + term(4);
    let expected_balanced = 0.0f64 + p0 + q1;
    assert_eq!(bal.to_bits(), expected_balanced.to_bits());
}

#[test]
fn repeated_calls_are_bit_identical() {
    let samples = cos_samples(6);
    let x = 0.875;
    let a = eval(x, &samples);
    let b = eval(x, &samples);
    assert_eq!(a.to_bits(), b.to_bits());
    let pa = eval_parallel(x, &samples, 2);
    let pb = eval_parallel(x, &samples, 2);
    assert_eq!(pa.to_bits(), pb.to_bits());
}

#[test]
fn closed_form_quadratic() {
    // (0, 1), (1, 3), (2, 7) lie on y = x^2 + x + 1, so the interpolant
    // at 1.5 must come out at about 4.75.
    let samples = [(0.0, 1.0), (1.0, 3.0), (2.0, 7.0)];
    let r = eval(1.5, &samples);
    assert!(rel_close(r, 4.75, 1e-12), "{}", r);
    // (0, 1), (1, 2), (2, 5) lie on y = x^2 + 1: about 3.25 at the same point.
    let samples2 = [(0.0, 1.0), (1.0, 2.0), (2.0, 5.0)];
    let r2 = eval(1.5, &samples2);
    assert!(rel_close(r2, 3.25, 1e-12), "{}", r2);
}

#[test]
fn straight_line_through_two_samples() {
    // y = 2x through (0, 0) and (2, 4): exercises every arithmetic
    // operation with an exactly representable answer.
    let r = eval(1.0, &[(0.0, 0.0), (2.0, 4.0)]);
    assert_eq!(r, 2.0);
    let r = eval(3.0, &[(0.0, 0.0), (2.0, 4.0)]);
    assert_eq!(r, 6.0);
}

#[test]
fn basis_term_matches_hand_computation() {
    // Term of sample 1 in {(0, 1), (1, 3), (2, 7)} at x = 1.5:
    // 3 * (1.5 - 0)/(1 - 0) * (1.5 - 2)/(1 - 2) = 3 * 1.5 * 0.5 = 2.25.
    let points = pts(&[(0.0, 1.0), (1.0, 3.0), (2.0, 7.0)]);
    let t = f64::from_bits(basis_term(1.5f64.to_bits(), &points, 1));
    assert_eq!(t, 2.25);
}

#[test]
fn duplicate_abscissa_is_reported() {
    let dup = pts(&[(1.0, 2.0), (3.0, 4.0), (1.0, 9.0)]);
    assert!(has_duplicate_abscissa(&dup));
    let ok = pts(&[(1.0, 2.0), (3.0, 4.0), (2.0, 9.0)]);
    assert!(!has_duplicate_abscissa(&ok));
    let empty: Vec<Point> = Vec::new();
    assert!(!has_duplicate_abscissa(&empty));
}

#[test]
fn duplicate_abscissa_yields_non_finite_result() {
    // A collided abscissa makes a basis denominator zero; the anomaly
    // flows through the arithmetic instead of being recovered.
    let samples = [(1.0, 2.0), (1.0, 3.0), (4.0, 5.0)];
    let r = eval(2.0, &samples);
    assert!(!r.is_finite());
}
