//! Mean squared error.

use vstd::prelude::*;

use crate::rational::Rat;
use crate::rational::Ratio;
use crate::rational::lemma_mul_pos;
use crate::rational::lemma_square_nonneg;
use crate::rational::rat_div;
use crate::rational::rat_fits;
use crate::rational::rat_from_int;
use crate::rational::rat_le;
use crate::rational::rat_sub;
use crate::rational::rat_wf;
use crate::rational::rat_zero;
use crate::sums::lemma_seq_sum_nonneg;
use crate::sums::lemma_seq_sum_wf;
use crate::sums::seq_rat_wf;
use crate::sums::seq_sum;
use crate::utils::math::check_vectors;
use crate::utils::math::err_sq_terms;
use crate::utils::math::rat_seq;
use crate::utils::math::ratio_seq_wf;
use crate::utils::math::sum_sq_err_fits;
use crate::utils::math::sum_squared_errors;
use crate::utils::math::valid_pair;

verus! {

/// The mean squared error of a valid pair: (1/n)·Σ(actualᵢ − predictedᵢ)².
pub open spec fn mse_value(a: Seq<Rat>, p: Seq<Rat>) -> Rat {
    rat_div(seq_sum(err_sq_terms(a, p)), rat_from_int(a.len() as int))
}

/// The exact MSE can be computed in checked arithmetic.
pub open spec fn mse_fits(a: Seq<Rat>, p: Seq<Rat>) -> bool {
    sum_sq_err_fits(a, p) && rat_fits(mse_value(a, p))
}

/// Mean squared error: the average of the squared differences between
/// actual and predicted values, in squared target units.
///
/// `None` — the sentinel for an undefined result — when the two vectors
/// differ in length or are empty, or when the exact arithmetic leaves the
/// coefficient range. The result is never negative.
pub fn mean_squared_error(y_true: &Vec<Ratio>, y_pred: &Vec<Ratio>) -> (r: Option<Ratio>)
    requires
        ratio_seq_wf(y_true@),
        ratio_seq_wf(y_pred@),
    ensures
        !valid_pair(rat_seq(y_true@), rat_seq(y_pred@)) ==> r is None,
        r is Some <==> (valid_pair(rat_seq(y_true@), rat_seq(y_pred@)) && mse_fits(
            rat_seq(y_true@),
            rat_seq(y_pred@),
        )),
        r matches Some(v) ==> v.wf() && v@ == mse_value(rat_seq(y_true@), rat_seq(y_pred@)),
        r matches Some(v) ==> rat_le(rat_zero(), v@),
{
    let ghost a = rat_seq(y_true@);
    let ghost p = rat_seq(y_pred@);
    let ghost terms = err_sq_terms(a, p);
    if !check_vectors(y_true, y_pred) {
        return None;
    }
    let n = y_true.len();
    let ss = match sum_squared_errors(y_true, y_pred) {
        Some(v) => v,
        None => {
            return None;
        },
    };
    proof {
        assert(seq_rat_wf(terms)) by {
            assert forall|j: int| 0 <= j < terms.len() implies rat_wf(#[trigger] terms[j]) by {
                lemma_mul_pos(a[j].d, p[j].d);
                lemma_mul_pos(a[j].d * p[j].d, a[j].d * p[j].d);
            }
        }
        lemma_seq_sum_wf(terms);
    }
    let denom = match Ratio::from_usize(n) {
        Some(d) => d,
        None => {
            proof {
                lemma_mul_pos(seq_sum(terms).d, n as int);
            }
            return None;
        },
    };
    let r = ss.checked_div(&denom);
    proof {
        if r is Some {
            let v = r.unwrap();
            assert forall|j: int| 0 <= j < terms.len() implies (#[trigger] terms[j]).n >= 0 by {
                lemma_square_nonneg(rat_sub(a[j], p[j]).n);
            }
            lemma_seq_sum_nonneg(terms);
            assert(0 * v@.d <= v@.n * 1);
        }
    }
    r
}

} // verus!
