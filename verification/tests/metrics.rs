use stat_metrics_rs::Ratio;
use stat_metrics_rs::adjusted_r_squared;
use stat_metrics_rs::check_vectors;
use stat_metrics_rs::mean;
use stat_metrics_rs::mean_absolute_error;
use stat_metrics_rs::mean_absolute_percentage_error;
use stat_metrics_rs::mean_squared_error;
use stat_metrics_rs::r_squared;
use stat_metrics_rs::sum_of_squares;
use stat_metrics_rs::sum_squared_errors;

fn r(num: i64, den: i64) -> Ratio {
    Ratio::new(num, den).unwrap()
}

fn ints(values: &[i64]) -> Vec<Ratio> {
    values.iter().map(|&v| Ratio::from_i64(v)).collect()
}

#[test]
fn check_vectors_accepts_equal_nonempty() {
    let a = ints(&[1, 2, 3]);
    let b = ints(&[4, 5, 6]);
    assert!(check_vectors(&a, &b));
}

#[test]
fn check_vectors_rejects_mismatched_length() {
    let a = ints(&[1, 2, 3]);
    let b = ints(&[1, 2]);
    assert!(!check_vectors(&a, &b));
}

#[test]
fn check_vectors_rejects_empty() {
    let a: Vec<Ratio> = Vec::new();
    let b: Vec<Ratio> = Vec::new();
    assert!(!check_vectors(&a, &b));
}

#[test]
fn mean_of_one_to_four_is_five_halves() {
    let v = ints(&[1, 2, 3, 4]);
    let m = mean(&v).unwrap();
    assert!(m.eq_value(&r(5, 2)));
}

#[test]
fn mean_of_empty_is_none() {
    let v: Vec<Ratio> = Vec::new();
    assert!(mean(&v).is_none());
}

#[test]
fn sum_of_squares_around_mean() {
    let v = ints(&[1, 2, 3, 4]);
    let ss = sum_of_squares(&v, &r(5, 2)).unwrap();
    assert!(ss.eq_value(&Ratio::from_i64(5)));
}

#[test]
fn sum_of_squares_of_empty_is_zero() {
    let v: Vec<Ratio> = Vec::new();
    let ss = sum_of_squares(&v, &Ratio::zero()).unwrap();
    assert!(ss.eq_value(&Ratio::zero()));
}

#[test]
fn sum_squared_errors_basic() {
    let a = ints(&[1, 2]);
    let p = ints(&[0, 0]);
    let ss = sum_squared_errors(&a, &p).unwrap();
    assert!(ss.eq_value(&Ratio::from_i64(5)));
}

#[test]
fn mae_basic_scenario() {
    // actual [3, -0.5, 2, 7] against predicted [2.5, 0, 2, 8]
    let a = vec![r(3, 1), r(-1, 2), r(2, 1), r(7, 1)];
    let p = vec![r(5, 2), r(0, 1), r(2, 1), r(8, 1)];
    let v = mean_absolute_error(&a, &p).unwrap();
    assert!(v.eq_value(&r(1, 2)));
}

#[test]
fn mae_of_identical_sequences_is_zero() {
    let a = vec![r(3, 1), r(-1, 2), r(2, 1), r(7, 1)];
    let v = mean_absolute_error(&a, &a.clone()).unwrap();
    assert!(v.eq_value(&Ratio::zero()));
}

#[test]
fn mae_mismatched_length_is_none() {
    let a = ints(&[1, 2]);
    let p = ints(&[1]);
    assert!(mean_absolute_error(&a, &p).is_none());
}

#[test]
fn mae_empty_is_none() {
    let a: Vec<Ratio> = Vec::new();
    let p: Vec<Ratio> = Vec::new();
    assert!(mean_absolute_error(&a, &p).is_none());
}

#[test]
fn mae_overflow_is_none() {
    let a = vec![Ratio::from_i64(i64::MAX), Ratio::from_i64(i64::MAX)];
    let p = vec![Ratio::from_i64(-1), Ratio::from_i64(-1)];
    assert!(mean_absolute_error(&a, &p).is_none());
}

#[test]
fn mse_basic_scenario() {
    let a = vec![r(3, 1), r(-1, 2), r(2, 1), r(7, 1)];
    let p = vec![r(5, 2), r(0, 1), r(2, 1), r(8, 1)];
    let v = mean_squared_error(&a, &p).unwrap();
    assert!(v.eq_value(&r(3, 8)));
}

#[test]
fn mse_mismatched_length_is_none() {
    let a = ints(&[1, 2]);
    let p = ints(&[1]);
    assert!(mean_squared_error(&a, &p).is_none());
}

#[test]
fn mape_percent_scenario() {
    // actual [100, 200, 300] against predicted [110, 190, 310]:
    // (1/10 + 1/20 + 1/30) / 3 * 100 = 55/9, about 6.11 percent
    let a = ints(&[100, 200, 300]);
    let p = ints(&[110, 190, 310]);
    let v = mean_absolute_percentage_error(&a, &p).unwrap();
    assert!(v.eq_value(&r(55, 9)));
}

#[test]
fn mape_zero_actual_still_divides_by_full_length() {
    // the zero element is skipped in the sum, yet the divisor stays 2:
    // |(2 - 3)/2| / 2 * 100 = 25, not 50
    let a = ints(&[0, 2]);
    let p = ints(&[1, 3]);
    let v = mean_absolute_percentage_error(&a, &p).unwrap();
    assert!(v.eq_value(&Ratio::from_i64(25)));
}

#[test]
fn mape_zero_actual_with_exact_match_is_zero() {
    let a = ints(&[0, 2]);
    let p = ints(&[1, 2]);
    let v = mean_absolute_percentage_error(&a, &p).unwrap();
    assert!(v.eq_value(&Ratio::zero()));
}

#[test]
fn mape_mismatched_length_is_none() {
    let a = ints(&[1, 2]);
    let p = ints(&[1]);
    assert!(mean_absolute_percentage_error(&a, &p).is_none());
}

#[test]
fn r_squared_without_variance_is_one() {
    // every actual value equal: reported as a perfect fit, whatever the
    // predictions
    let a = ints(&[2, 2, 2]);
    let p = ints(&[1, 5, 9]);
    let v = r_squared(&a, &p).unwrap();
    assert!(v.eq_value(&Ratio::one()));
}

#[test]
fn r_squared_of_perfect_prediction_is_one() {
    let a = ints(&[1, 2, 3]);
    let p = ints(&[1, 2, 3]);
    let v = r_squared(&a, &p).unwrap();
    assert!(v.eq_value(&Ratio::one()));
}

#[test]
fn r_squared_of_mean_prediction_is_zero() {
    let a = ints(&[1, 2, 3]);
    let p = ints(&[2, 2, 2]);
    let v = r_squared(&a, &p).unwrap();
    assert!(v.eq_value(&Ratio::zero()));
}

#[test]
fn r_squared_can_be_negative() {
    let a = ints(&[1, 2, 3]);
    let p = ints(&[3, 3, 0]);
    let v = r_squared(&a, &p).unwrap();
    assert!(v.eq_value(&Ratio::from_i64(-6)));
}

#[test]
fn r_squared_basic_scenario() {
    let a = vec![r(3, 1), r(-1, 2), r(2, 1), r(7, 1)];
    let p = vec![r(5, 2), r(0, 1), r(2, 1), r(8, 1)];
    let v = r_squared(&a, &p).unwrap();
    assert!(v.eq_value(&r(443, 467)));
}

#[test]
fn r_squared_mismatched_length_is_none() {
    let a = ints(&[1, 2]);
    let p = ints(&[1]);
    assert!(r_squared(&a, &p).is_none());
}

#[test]
fn adjusted_r_squared_basic_scenario() {
    let a = vec![r(3, 1), r(-1, 2), r(2, 1), r(7, 1)];
    let p = vec![r(5, 2), r(0, 1), r(2, 1), r(8, 1)];
    let v = adjusted_r_squared(&a, &p, 2).unwrap();
    assert!(v.eq_value(&r(395, 467)));
}

#[test]
fn adjusted_r_squared_without_degrees_of_freedom_is_none() {
    let a = ints(&[1, 2, 3]);
    let p = ints(&[1, 2, 3]);
    // n == num_features + 1
    assert!(adjusted_r_squared(&a, &p, 2).is_none());
    // n < num_features + 1
    assert!(adjusted_r_squared(&a, &p, 5).is_none());
}

#[test]
fn adjusted_r_squared_of_empty_is_none() {
    let a: Vec<Ratio> = Vec::new();
    let p: Vec<Ratio> = Vec::new();
    assert!(adjusted_r_squared(&a, &p, 0).is_none());
}

#[test]
fn adjusted_r_squared_mismatched_length_is_none() {
    let a = ints(&[1, 2, 3]);
    let p = ints(&[1, 2]);
    assert!(adjusted_r_squared(&a, &p, 1).is_none());
}
