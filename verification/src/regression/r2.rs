//! R² (coefficient of determination) and adjusted R².

use vstd::prelude::*;

use crate::rational::COEFF_MAX;
use crate::rational::Rat;
use crate::rational::Ratio;
use crate::rational::lemma_mul_both;
use crate::rational::lemma_mul_cancel;
use crate::rational::rat_div;
use crate::rational::rat_eq;
use crate::rational::rat_fits;
use crate::rational::rat_from_int;
use crate::rational::rat_is_zero;
use crate::rational::rat_mul;
use crate::rational::rat_one;
use crate::rational::rat_sub;
use crate::rational::rat_wf;
use crate::sums::lemma_seq_sum_const;
use crate::sums::lemma_seq_sum_wf;
use crate::sums::lemma_seq_sum_zero;
use crate::sums::seq_rat_wf;
use crate::sums::seq_sum;
use crate::utils::math::check_vectors;
use crate::utils::math::dev_sq_terms;
use crate::utils::math::err_sq_terms;
use crate::utils::math::mean;
use crate::utils::math::mean_fits;
use crate::utils::math::mean_value;
use crate::utils::math::rat_seq;
use crate::utils::math::ratio_seq_wf;
use crate::utils::math::sum_of_squares;
use crate::utils::math::sum_sq_dev_fits;
use crate::utils::math::sum_sq_err_fits;
use crate::utils::math::sum_squared_errors;
use crate::utils::math::valid_pair;

verus! {

/// The residual sum of squares: Σ(actualᵢ − predictedᵢ)².
pub open spec fn ss_res_value(a: Seq<Rat>, p: Seq<Rat>) -> Rat {
    seq_sum(err_sq_terms(a, p))
}

/// The total sum of squares: Σ(actualᵢ − mean(actual))².
pub open spec fn ss_tot_value(a: Seq<Rat>) -> Rat {
    seq_sum(dev_sq_terms(a, mean_value(a)))
}

/// The R² of a valid pair: 1 − ss_res/ss_tot, and exactly one when the
/// actual values have no variance at all (ss_tot is zero) — a perfect-or-
/// undefined fit is reported as perfect rather than divided by zero.
pub open spec fn r_squared_value(a: Seq<Rat>, p: Seq<Rat>) -> Rat {
    if rat_is_zero(ss_tot_value(a)) {
        rat_one()
    } else {
        rat_sub(rat_one(), rat_div(ss_res_value(a, p), ss_tot_value(a)))
    }
}

/// The exact R² can be computed in checked arithmetic: the mean, both sums
/// of squares, and — unless the zero-variance convention applies — the
/// final quotient and difference all stay in range.
pub open spec fn r_squared_fits(a: Seq<Rat>, p: Seq<Rat>) -> bool {
    &&& mean_fits(a)
    &&& sum_sq_err_fits(a, p)
    &&& sum_sq_dev_fits(a, mean_value(a))
    &&& (rat_is_zero(ss_tot_value(a)) || (rat_fits(
        rat_div(ss_res_value(a, p), ss_tot_value(a)),
    ) && rat_fits(rat_sub(rat_one(), rat_div(ss_res_value(a, p), ss_tot_value(a))))))
}

/// A value equal to the elements of a constant sequence is equal to the
/// sequence's mean.
proof fn lemma_eq_mean_step(ai: Rat, r: Rat, sum: Rat, len: int)
    requires
        rat_wf(ai),
        rat_wf(r),
        rat_wf(sum),
        1 <= len,
        rat_eq(ai, r),
        rat_eq(sum, (Rat { n: len * r.n, d: r.d })),
    ensures
        rat_eq(ai, (Rat { n: sum.n, d: sum.d * len })),
{
    lemma_mul_both(ai.n * r.d, r.n * ai.d, sum.d * len);
    lemma_mul_both(sum.n * r.d, (len * r.n) * sum.d, ai.d);
    assert((ai.n * (sum.d * len)) * r.d == (ai.n * r.d) * (sum.d * len)) by (nonlinear_arith);
    assert((r.n * ai.d) * (sum.d * len) == ((len * r.n) * sum.d) * ai.d) by (nonlinear_arith);
    assert((sum.n * r.d) * ai.d == (sum.n * ai.d) * r.d) by (nonlinear_arith);
    lemma_mul_cancel(ai.n * (sum.d * len), sum.n * ai.d, r.d);
}

/// When every actual value is the same, the total sum of squares is zero:
/// each deviation from the mean has a zero numerator.
proof fn lemma_no_variance(a: Seq<Rat>)
    requires
        seq_rat_wf(a),
        a.len() > 0,
        forall|i: int| 0 <= i < a.len() ==> rat_eq(#[trigger] a[i], a[0]),
    ensures
        rat_is_zero(ss_tot_value(a)),
{
    let m = mean_value(a);
    let r = a[0];
    let sum = seq_sum(a);
    lemma_seq_sum_const(a, r);
    lemma_seq_sum_wf(a);
    assert(m == (Rat { n: sum.n * 1, d: sum.d * (a.len() as int) }));
    let terms = dev_sq_terms(a, m);
    assert forall|i: int| 0 <= i < terms.len() implies (#[trigger] terms[i]).n == 0 by {
        lemma_eq_mean_step(a[i], r, sum, a.len() as int);
        assert(a[i].n * m.d == m.n * a[i].d);
        assert(rat_sub(a[i], m).n == 0);
        assert(terms[i].n == 0 * 0);
    }
    lemma_seq_sum_zero(terms);
}

/// R²: how much of the variance of the actual values the predictions
/// explain, as 1 − ss_res/ss_tot. Exactly one when the actual values are
/// all equal (no variance to explain), whatever the predictions; can be
/// negative for a model worse than predicting the mean.
///
/// `None` — the sentinel for an undefined result — when the two vectors
/// differ in length or are empty, or when the exact arithmetic leaves the
/// coefficient range.
pub fn r_squared(y_true: &Vec<Ratio>, y_pred: &Vec<Ratio>) -> (r: Option<Ratio>)
    requires
        ratio_seq_wf(y_true@),
        ratio_seq_wf(y_pred@),
    ensures
        !valid_pair(rat_seq(y_true@), rat_seq(y_pred@)) ==> r is None,
        r is Some <==> (valid_pair(rat_seq(y_true@), rat_seq(y_pred@)) && r_squared_fits(
            rat_seq(y_true@),
            rat_seq(y_pred@),
        )),
        r matches Some(v) ==> v.wf() && v@ == r_squared_value(rat_seq(y_true@), rat_seq(y_pred@)),
        (forall|i: int|
            0 <= i < y_true@.len() ==> rat_eq(
                #[trigger] rat_seq(y_true@)[i],
                rat_seq(y_true@)[0],
            )) ==> (r matches Some(v) ==> rat_eq(v@, rat_one())),
{
    let ghost a = rat_seq(y_true@);
    let ghost p = rat_seq(y_pred@);
    if !check_vectors(y_true, y_pred) {
        return None;
    }
    let mean_y = match mean(y_true) {
        Some(m) => m,
        None => {
            return None;
        },
    };
    let ss_res = match sum_squared_errors(y_true, y_pred) {
        Some(v) => v,
        None => {
            return None;
        },
    };
    let ss_tot = match sum_of_squares(y_true, &mean_y) {
        Some(v) => v,
        None => {
            return None;
        },
    };
    proof {
        if forall|i: int| 0 <= i < a.len() ==> rat_eq(#[trigger] a[i], a[0]) {
            lemma_no_variance(a);
        }
    }
    if ss_tot.is_zero() {
        Some(Ratio::one())
    } else {
        let q = match ss_res.checked_div(&ss_tot) {
            Some(q) => q,
            None => {
                return None;
            },
        };
        let one = Ratio::one();
        one.checked_sub(&q)
    }
}

/// The degrees-of-freedom penalty factor (n − 1)/(n − k − 1).
pub open spec fn dof_ratio(n: int, k: int) -> Rat {
    rat_div(rat_from_int(n - 1), rat_from_int(n - k - 1))
}

/// The adjusted R² of a valid pair with k features:
/// 1 − (1 − R²)·(n − 1)/(n − k − 1).
pub open spec fn adjusted_value(a: Seq<Rat>, p: Seq<Rat>, k: int) -> Rat {
    rat_sub(
        rat_one(),
        rat_mul(rat_sub(rat_one(), r_squared_value(a, p)), dof_ratio(a.len() as int, k)),
    )
}

/// The exact adjusted R² can be computed in checked arithmetic.
pub open spec fn adjusted_fits(a: Seq<Rat>, p: Seq<Rat>, k: int) -> bool {
    &&& r_squared_fits(a, p)
    &&& rat_fits(rat_sub(rat_one(), r_squared_value(a, p)))
    &&& a.len() - 1 <= COEFF_MAX as int
    &&& rat_fits(rat_mul(rat_sub(rat_one(), r_squared_value(a, p)), dof_ratio(a.len() as int, k)))
    &&& rat_fits(adjusted_value(a, p, k))
}

/// Adjusted R²: R² penalized for the number of features k, as
/// 1 − (1 − R²)·(n − 1)/(n − k − 1).
///
/// `None` — the sentinel for an undefined result — when the degrees of
/// freedom are not positive (n ≤ k + 1), checked before anything else; when
/// the pair is invalid (through the R² guard); and when the exact
/// arithmetic leaves the coefficient range.
pub fn adjusted_r_squared(y_true: &Vec<Ratio>, y_pred: &Vec<Ratio>, num_features: usize) -> (r:
    Option<Ratio>)
    requires
        ratio_seq_wf(y_true@),
        ratio_seq_wf(y_pred@),
    ensures
        y_true@.len() as int <= num_features as int + 1 ==> r is None,
        !valid_pair(rat_seq(y_true@), rat_seq(y_pred@)) ==> r is None,
        r is Some <==> (y_true@.len() as int > num_features as int + 1 && valid_pair(
            rat_seq(y_true@),
            rat_seq(y_pred@),
        ) && adjusted_fits(rat_seq(y_true@), rat_seq(y_pred@), num_features as int)),
        r matches Some(v) ==> v.wf() && v@ == adjusted_value(
            rat_seq(y_true@),
            rat_seq(y_pred@),
            num_features as int,
        ),
{
    let n = y_true.len();
    if n <= num_features {
        return None;
    }
    if n - num_features <= 1 {
        return None;
    }
    let r2 = match r_squared(y_true, y_pred) {
        Some(v) => v,
        None => {
            return None;
        },
    };
    let one = Ratio::one();
    let om = match one.checked_sub(&r2) {
        Some(v) => v,
        None => {
            return None;
        },
    };
    let na = match Ratio::from_usize(n - 1) {
        Some(v) => v,
        None => {
            return None;
        },
    };
    let nb = Ratio::from_usize(n - num_features - 1).unwrap();
    let frac = na.checked_div(&nb).unwrap();
    let t = match om.checked_mul(&frac) {
        Some(v) => v,
        None => {
            return None;
        },
    };
    one.checked_sub(&t)
}

} // verus!
