//! Mean absolute percentage error.

use vstd::prelude::*;

use crate::rational::Rat;
use crate::rational::Ratio;
use crate::rational::lemma_mul_pos;
use crate::rational::lemma_rat_div_wf;
use crate::rational::rat_abs;
use crate::rational::rat_div;
use crate::rational::rat_fits;
use crate::rational::rat_from_int;
use crate::rational::rat_mul;
use crate::rational::rat_sub;
use crate::rational::rat_wf;
use crate::rational::rat_zero;
use crate::sums::lemma_seq_sum_fits_prefix;
use crate::sums::lemma_seq_sum_wf;
use crate::sums::seq_rat_wf;
use crate::sums::seq_sum;
use crate::sums::seq_sum_fits;
use crate::utils::math::check_vectors;
use crate::utils::math::rat_seq;
use crate::utils::math::ratio_seq_wf;
use crate::utils::math::valid_pair;

verus! {

/// The absolute percentage residuals: |(actualᵢ − predictedᵢ) / actualᵢ|,
/// with a zero contribution for every element whose actual value is zero —
/// such an element is skipped rather than divided by.
pub open spec fn pct_err_terms(a: Seq<Rat>, p: Seq<Rat>) -> Seq<Rat> {
    Seq::new(
        a.len(),
        |i: int|
            if a[i].n == 0 {
                rat_zero()
            } else {
                rat_abs(rat_div(rat_sub(a[i], p[i]), a[i]))
            },
    )
}

/// The mean absolute percentage error of a valid pair. The divisor is the
/// full length n, not the count of elements that were not skipped: a zero
/// actual value still counts toward the average. Skipping an element while
/// dividing by the full length is a deliberate, known bias of this metric.
pub open spec fn mape_value(a: Seq<Rat>, p: Seq<Rat>) -> Rat {
    rat_mul(
        rat_div(seq_sum(pct_err_terms(a, p)), rat_from_int(a.len() as int)),
        rat_from_int(100),
    )
}

/// The exact MAPE can be computed in checked arithmetic.
pub open spec fn mape_fits(a: Seq<Rat>, p: Seq<Rat>) -> bool {
    &&& forall|i: int|
        0 <= i < a.len() && a[i].n != 0 ==> rat_fits(#[trigger] rat_sub(a[i], p[i])) && rat_fits(
            rat_div(rat_sub(a[i], p[i]), a[i]),
        )
    &&& seq_sum_fits(pct_err_terms(a, p))
    &&& rat_fits(rat_div(seq_sum(pct_err_terms(a, p)), rat_from_int(a.len() as int)))
    &&& rat_fits(mape_value(a, p))
}

/// Mean absolute percentage error: the average of |(actualᵢ − predictedᵢ) /
/// actualᵢ|, expressed as a percentage.
///
/// An element whose actual value is zero is skipped entirely — it adds
/// nothing to the sum — yet the sum is still divided by the full length n.
///
/// `None` — the sentinel for an undefined result — when the two vectors
/// differ in length or are empty, or when the exact arithmetic leaves the
/// coefficient range.
pub fn mean_absolute_percentage_error(y_true: &Vec<Ratio>, y_pred: &Vec<Ratio>) -> (r: Option<
    Ratio,
>)
    requires
        ratio_seq_wf(y_true@),
        ratio_seq_wf(y_pred@),
    ensures
        !valid_pair(rat_seq(y_true@), rat_seq(y_pred@)) ==> r is None,
        r is Some <==> (valid_pair(rat_seq(y_true@), rat_seq(y_pred@)) && mape_fits(
            rat_seq(y_true@),
            rat_seq(y_pred@),
        )),
        r matches Some(v) ==> v.wf() && v@ == mape_value(rat_seq(y_true@), rat_seq(y_pred@)),
{
    let ghost a = rat_seq(y_true@);
    let ghost p = rat_seq(y_pred@);
    let ghost terms = pct_err_terms(a, p);
    if !check_vectors(y_true, y_pred) {
        return None;
    }
    let n = y_true.len();
    let mut acc = Ratio::zero();
    let mut i: usize = 0;
    while i < n
        invariant
            n == y_true@.len(),
            n == y_pred@.len(),
            i <= n,
            a == rat_seq(y_true@),
            p == rat_seq(y_pred@),
            terms == pct_err_terms(a, p),
            seq_rat_wf(a),
            seq_rat_wf(p),
            acc.wf(),
            rat_fits(acc@),
            acc@ == seq_sum(terms.take(i as int)),
            seq_sum_fits(terms.take(i as int)),
            forall|j: int|
                0 <= j < i && a[j].n != 0 ==> rat_fits(#[trigger] rat_sub(a[j], p[j]))
                    && rat_fits(rat_div(rat_sub(a[j], p[j]), a[j])),
        decreases n - i,
    {
        let x = y_true[i];
        let y = y_pred[i];
        proof {
            assert(x@ == a[i as int]);
            assert(y@ == p[i as int]);
            assert(rat_wf(a[i as int]));
            assert(rat_wf(p[i as int]));
            assert(terms.take(i + 1).drop_last() =~= terms.take(i as int));
            assert(terms.take(i + 1).last() == terms[i as int]);
        }
        if x.is_zero() {
            proof {
                assert(terms[i as int] == rat_zero());
                assert(seq_sum(terms.take(i + 1)) == (Rat {
                    n: acc@.n * 1 + 0 * acc@.d,
                    d: acc@.d * 1,
                }));
                assert(seq_sum(terms.take(i + 1)) == acc@);
            }
            i = i + 1;
        } else {
            let d = match x.checked_sub(&y) {
                Some(d) => d,
                None => {
                    return None;
                },
            };
            let q = match d.checked_div(&x) {
                Some(q) => q,
                None => {
                    return None;
                },
            };
            let t = q.checked_abs().unwrap();
            match acc.checked_add(&t) {
                Some(a2) => {
                    acc = a2;
                },
                None => {
                    proof {
                        if seq_sum_fits(terms) {
                            lemma_seq_sum_fits_prefix(terms, i + 1);
                        }
                    }
                    return None;
                },
            }
            i = i + 1;
        }
    }
    proof {
        assert(terms.take(n as int) =~= terms);
        assert(seq_rat_wf(terms)) by {
            assert forall|j: int| 0 <= j < terms.len() implies rat_wf(#[trigger] terms[j]) by {
                if a[j].n != 0 {
                    lemma_mul_pos(a[j].d, p[j].d);
                    lemma_rat_div_wf(rat_sub(a[j], p[j]), a[j]);
                }
            }
        }
        lemma_seq_sum_wf(terms);
    }
    let denom = match Ratio::from_usize(n) {
        Some(d) => d,
        None => {
            proof {
                lemma_mul_pos(seq_sum(terms).d, n as int);
            }
            return None;
        },
    };
    let q = match acc.checked_div(&denom) {
        Some(q) => q,
        None => {
            return None;
        },
    };
    let hundred = Ratio::from_i64(100);
    q.checked_mul(&hundred)
}

} // verus!
