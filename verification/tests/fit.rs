use exp_root_log::{approx_exp_root_log, BasisTerm, Evaluator};
use nalgebra::{DMatrix, DVector};

fn term_value(term: BasisTerm<f64>, x: f64) -> f64 {
    match term {
        BasisTerm::ExpRoot(b) => (-((b * x).sqrt())).exp(),
        BasisTerm::Power(j) => x.powi(j as i32),
        BasisTerm::Log(lambda) => (1.0 + lambda * x).ln(),
    }
}

fn weigh(acc: f64, coeff: f64, value: f64) -> f64 {
    acc + coeff * value
}

fn svd_solve(rows: Vec<Vec<f64>>, y: Vec<f64>) -> Option<Vec<f64>> {
    let n_cols = rows.first().map_or(0, |row| row.len());
    let design = DMatrix::from_fn(rows.len(), n_cols, |i, col| rows[i][col]);
    let y_vec = DVector::from_vec(y);
    design
        .svd(true, true)
        .solve(&y_vec, 1e-10)
        .ok()
        .map(|coeffs| coeffs.data.as_vec().clone())
}

fn fit(
    x: &[f64],
    y: &[f64],
    b_list: &[f64],
    poly_deg: usize,
    log_lambdas: &[f64],
) -> Evaluator<f64> {
    approx_exp_root_log(x, y, b_list, poly_deg, log_lambdas, &term_value, svd_solve)
        .expect("SVD solve failed")
}

fn predict(fitted: &Evaluator<f64>, x: f64) -> f64 {
    fitted.evaluate(x, 0.0, &term_value, &weigh)
}

fn mse(y_true: &[f64], y_pred: &[f64]) -> f64 {
    y_true
        .iter()
        .zip(y_pred)
        .map(|(a, b)| (a - b).powi(2))
        .sum::<f64>()
        / y_true.len() as f64
}

fn unit_grid(n: usize) -> Vec<f64> {
    (0..n).map(|i| i as f64 / n as f64).collect()
}

fn sine(x: &[f64]) -> Vec<f64> {
    x.iter().map(|&x| (2.0 * std::f64::consts::PI * x).sin()).collect()
}

#[test]
fn test_sin_approximation() {
    let x: Vec<f64> = (0..100).map(|i| i as f64 / 100.0).collect();
    let y: Vec<f64> = x
        .iter()
        .map(|&x| (2.0 * std::f64::consts::PI * x).sin())
        .collect();

    let approx_fn = fit(
        &x,
        &y,
        &[0.5, 2.0, 5.0], // b_i
        3,                // polynomial degree
        &[1.0, 5.0, 10.0], // lambda_k
    );

    let y_pred: Vec<f64> = x.iter().map(|&xi| predict(&approx_fn, xi)).collect();
    let error = mse(&y, &y_pred);

    println!("MSE for sin approximation: {:.2e}", error);
    assert!(error < 1e-3, "MSE too high: {}", error);
}

#[test]
fn design_matrix_columns_are_the_basis_functions() {
    let x = [0.0, 0.25, 1.0];
    let mut seen: Vec<Vec<f64>> = Vec::new();
    let backend = |rows: Vec<Vec<f64>>, _y: Vec<f64>| {
        seen = rows;
        Some(vec![0.0; 4])
    };
    approx_exp_root_log(&x, &[1.0, 2.0, 3.0], &[4.0], 1, &[3.0], &term_value, backend).unwrap();
    assert_eq!(seen.len(), 3);
    // x = 0: exp(-sqrt(0)) = 1, x^0 = 1 even at 0, x^1 = 0, ln(1) = 0
    assert_eq!(seen[0], vec![1.0, 1.0, 0.0, 0.0]);
    // x = 0.25: exp(-sqrt(4 * 0.25)) = exp(-1), ln(1 + 0.75)
    assert_eq!(seen[1], vec![(-1.0f64).exp(), 1.0, 0.25, 1.75f64.ln()]);
    // x = 1: exp(-sqrt(4)) = exp(-2), ln(4)
    assert_eq!(seen[2], vec![(-2.0f64).exp(), 1.0, 1.0, 4.0f64.ln()]);
}

#[test]
fn two_fits_of_the_same_data_are_identical() {
    let x = unit_grid(100);
    let y = sine(&x);
    let first = fit(&x, &y, &[0.5, 2.0, 5.0], 3, &[1.0, 5.0, 10.0]);
    let second = fit(&x, &y, &[0.5, 2.0, 5.0], 3, &[1.0, 5.0, 10.0]);
    assert_eq!(first.coefficients().len(), 10);
    for (a, b) in first.coefficients().iter().zip(second.coefficients()) {
        assert_eq!(a.to_bits(), b.to_bits());
    }
    for &xi in &x {
        assert_eq!(predict(&first, xi).to_bits(), predict(&second, xi).to_bits());
    }
}

#[test]
fn reordering_the_scales_keeps_the_fitted_function() {
    let x = unit_grid(100);
    let y = sine(&x);
    let given = fit(&x, &y, &[0.5, 5.0], 1, &[1.0, 10.0]);
    let reordered = fit(&x, &y, &[5.0, 0.5], 1, &[10.0, 1.0]);
    for &xi in &x {
        let a = predict(&given, xi);
        let b = predict(&reordered, xi);
        assert!((a - b).abs() < 1e-6, "at {}: {} and {}", xi, a, b);
    }
    let wide = fit(&x, &y, &[0.5, 2.0, 5.0], 3, &[1.0, 5.0, 10.0]);
    let wide_reordered = fit(&x, &y, &[5.0, 0.5, 2.0], 3, &[10.0, 1.0, 5.0]);
    for &xi in &x {
        let a = predict(&wide, xi);
        let b = predict(&wide_reordered, xi);
        assert!((a - b).abs() < 1e-6, "at {}: {} and {}", xi, a, b);
    }
    // Each coefficient has followed its column.
    let c = given.coefficients();
    let d = reordered.coefficients();
    let followed = [d[1], d[0], d[2], d[3], d[5], d[4]];
    let scale = c.iter().fold(1.0f64, |m, v| m.max(v.abs()));
    for (a, b) in c.iter().zip(followed.iter()) {
        assert!((a - b).abs() < 1e-6 * scale, "{} and {}", a, b);
    }
}

#[test]
fn constant_basis_fits_the_mean() {
    let x = unit_grid(50);
    let y: Vec<f64> = x.iter().map(|&x| 3.0 * x * x - 0.5).collect();
    let mean = y.iter().sum::<f64>() / y.len() as f64;
    let fitted = fit(&x, &y, &[], 0, &[]);
    assert_eq!(fitted.coefficients().len(), 1);
    assert!((fitted.coefficients()[0] - mean).abs() < 1e-12);
    for &xi in &[-3.0, 0.0, 0.5, 1.0, 40.0] {
        assert!((predict(&fitted, xi) - mean).abs() < 1e-12);
    }
}

#[test]
fn duplicate_scales_give_finite_coefficients() {
    let x = unit_grid(100);
    let y = sine(&x);
    let fitted = fit(&x, &y, &[2.0, 2.0], 1, &[]);
    let c = fitted.coefficients();
    assert_eq!(c.len(), 4);
    for v in c {
        assert!(v.is_finite());
    }
    // Of all least-squares solutions the smallest: the two equal columns share one weight.
    assert!((c[0] - c[1]).abs() < 1e-8 * c[0].abs().max(1.0));
    // The fit is the one that a single such column gives.
    let single = fit(&x, &y, &[2.0], 1, &[]);
    for &xi in &x {
        assert!((predict(&fitted, xi) - predict(&single, xi)).abs() < 1e-8);
    }
}

#[test]
fn evaluating_outside_the_domain_gives_nan() {
    let x = unit_grid(20);
    let y = sine(&x);
    let fitted = fit(&x, &y, &[], 1, &[1.0]);
    for v in fitted.coefficients() {
        assert!(v.is_finite());
    }
    // 1 + 1 * (-2) = -1: the logarithm has no value there.
    assert!(predict(&fitted, -2.0).is_nan());
    // Inside the domain the same evaluator is finite.
    assert!(predict(&fitted, 0.5).is_finite());
}

#[test]
fn negative_root_argument_gives_nan() {
    let x = unit_grid(20);
    let y = sine(&x);
    let fitted = fit(&x, &y, &[2.0], 0, &[]);
    assert!(predict(&fitted, -1.0).is_nan());
    assert!(predict(&fitted, 1.0).is_finite());
}
