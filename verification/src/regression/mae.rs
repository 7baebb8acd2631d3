//! Mean absolute error.

use vstd::prelude::*;

use crate::rational::Rat;
use crate::rational::Ratio;
use crate::rational::lemma_mul_pos;
use crate::rational::rat_abs;
use crate::rational::rat_div;
use crate::rational::rat_eq;
use crate::rational::rat_fits;
use crate::rational::rat_from_int;
use crate::rational::rat_le;
use crate::rational::rat_sub;
use crate::rational::rat_wf;
use crate::rational::rat_zero;
use crate::sums::lemma_seq_sum_fits_prefix;
use crate::sums::lemma_seq_sum_nonneg;
use crate::sums::lemma_seq_sum_wf;
use crate::sums::lemma_seq_sum_zero;
use crate::sums::seq_rat_wf;
use crate::sums::seq_sum;
use crate::sums::seq_sum_fits;
use crate::utils::math::check_vectors;
use crate::utils::math::rat_seq;
use crate::utils::math::ratio_seq_wf;
use crate::utils::math::valid_pair;

verus! {

/// The absolute residuals: |actualᵢ − predictedᵢ|.
pub open spec fn abs_err_terms(a: Seq<Rat>, p: Seq<Rat>) -> Seq<Rat> {
    Seq::new(a.len(), |i: int| rat_abs(rat_sub(a[i], p[i])))
}

/// The mean absolute error of a valid pair: (1/n)·Σ|actualᵢ − predictedᵢ|.
pub open spec fn mae_value(a: Seq<Rat>, p: Seq<Rat>) -> Rat {
    rat_div(seq_sum(abs_err_terms(a, p)), rat_from_int(a.len() as int))
}

/// The exact MAE can be computed in checked arithmetic: every residual,
/// every partial sum and the final quotient stays in range.
pub open spec fn mae_fits(a: Seq<Rat>, p: Seq<Rat>) -> bool {
    &&& forall|i: int| 0 <= i < a.len() ==> rat_fits(#[trigger] rat_sub(a[i], p[i]))
    &&& seq_sum_fits(abs_err_terms(a, p))
    &&& rat_fits(mae_value(a, p))
}

/// Mean absolute error: the average of the absolute differences between
/// actual and predicted values, in the units of the target variable.
///
/// `None` — the sentinel for an undefined result — when the two vectors
/// differ in length or are empty, or when the exact arithmetic leaves the
/// coefficient range. The result is never negative, and it is zero whenever
/// the two vectors are equal value for value.
pub fn mean_absolute_error(y_true: &Vec<Ratio>, y_pred: &Vec<Ratio>) -> (r: Option<Ratio>)
    requires
        ratio_seq_wf(y_true@),
        ratio_seq_wf(y_pred@),
    ensures
        !valid_pair(rat_seq(y_true@), rat_seq(y_pred@)) ==> r is None,
        r is Some <==> (valid_pair(rat_seq(y_true@), rat_seq(y_pred@)) && mae_fits(
            rat_seq(y_true@),
            rat_seq(y_pred@),
        )),
        r matches Some(v) ==> v.wf() && v@ == mae_value(rat_seq(y_true@), rat_seq(y_pred@)),
        r matches Some(v) ==> rat_le(rat_zero(), v@),
        (forall|i: int|
            0 <= i < y_true@.len() ==> rat_eq(
                #[trigger] rat_seq(y_true@)[i],
                rat_seq(y_pred@)[i],
            )) ==> (r matches Some(v) ==> rat_eq(v@, rat_zero())),
{
    let ghost a = rat_seq(y_true@);
    let ghost p = rat_seq(y_pred@);
    let ghost terms = abs_err_terms(a, p);
    if !check_vectors(y_true, y_pred) {
        return None;
    }
    let n = y_true.len();
    let mut acc = Ratio::zero();
    let mut i: usize = 0;
    while i < n
        invariant
            n == y_true@.len(),
            n == y_pred@.len(),
            i <= n,
            a == rat_seq(y_true@),
            p == rat_seq(y_pred@),
            terms == abs_err_terms(a, p),
            seq_rat_wf(a),
            seq_rat_wf(p),
            acc.wf(),
            acc@ == seq_sum(terms.take(i as int)),
            seq_sum_fits(terms.take(i as int)),
            forall|j: int| 0 <= j < i ==> rat_fits(#[trigger] rat_sub(a[j], p[j])),
        decreases n - i,
    {
        let x = y_true[i];
        let y = y_pred[i];
        proof {
            assert(x@ == a[i as int]);
            assert(y@ == p[i as int]);
            assert(rat_wf(a[i as int]));
            assert(rat_wf(p[i as int]));
        }
        let d = match x.checked_sub(&y) {
            Some(d) => d,
            None => {
                return None;
            },
        };
        let t = d.checked_abs().unwrap();
        proof {
            assert(terms.take(i + 1).drop_last() =~= terms.take(i as int));
            assert(terms.take(i + 1).last() == terms[i as int]);
        }
        match acc.checked_add(&t) {
            Some(a2) => {
                acc = a2;
            },
            None => {
                proof {
                    if seq_sum_fits(terms) {
                        lemma_seq_sum_fits_prefix(terms, i + 1);
                    }
                }
                return None;
            },
        }
        i = i + 1;
    }
    proof {
        assert(terms.take(n as int) =~= terms);
        assert(seq_rat_wf(terms)) by {
            assert forall|j: int| 0 <= j < terms.len() implies rat_wf(#[trigger] terms[j]) by {
                lemma_mul_pos(a[j].d, p[j].d);
            }
        }
        lemma_seq_sum_wf(terms);
    }
    let denom = match Ratio::from_usize(n) {
        Some(d) => d,
        None => {
            proof {
                lemma_mul_pos(seq_sum(terms).d, n as int);
            }
            return None;
        },
    };
    let r = acc.checked_div(&denom);
    proof {
        if r is Some {
            let v = r.unwrap();
            assert forall|j: int| 0 <= j < terms.len() implies (#[trigger] terms[j]).n >= 0 by {}
            lemma_seq_sum_nonneg(terms);
            assert(0 * v@.d <= v@.n * 1);
            if forall|i: int| 0 <= i < a.len() ==> rat_eq(#[trigger] a[i], p[i]) {
                assert forall|j: int| 0 <= j < terms.len() implies (#[trigger] terms[j]).n == 0 by {
                    assert(rat_eq(a[j], p[j]));
                }
                lemma_seq_sum_zero(terms);
                assert(v@.n * 1 == 0 * v@.d);
            }
        }
    }
    r
}

} // verus!
