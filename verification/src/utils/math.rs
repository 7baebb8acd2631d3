//! Numeric helpers: vector validation, the arithmetic mean, and sums of
//! squared deviations. Every metric is built from these.

use vstd::prelude::*;

use crate::rational::COEFF_MAX;
use crate::rational::Rat;
use crate::rational::Ratio;
use crate::rational::lemma_mul_pos;
use crate::rational::rat_div;
use crate::rational::rat_fits;
use crate::rational::rat_from_int;
use crate::rational::rat_mul;
use crate::rational::rat_sub;
use crate::rational::rat_wf;
use crate::sums::lemma_seq_sum_fits_prefix;
use crate::sums::lemma_seq_sum_wf;
use crate::sums::seq_rat_wf;
use crate::sums::seq_sum;
use crate::sums::seq_sum_fits;

verus! {

/// The values of a vector of ratios, as a sequence of rationals.
pub open spec fn rat_seq(v: Seq<Ratio>) -> Seq<Rat> {
    Seq::new(v.len(), |i: int| v[i]@)
}

/// Every element of the vector is well-formed. Ratios built by the
/// [`Ratio`] constructors always are.
pub open spec fn ratio_seq_wf(v: Seq<Ratio>) -> bool {
    seq_rat_wf(rat_seq(v))
}

/// Two vectors may be scored against each other exactly when they have the
/// same length and that length is not zero.
pub open spec fn valid_pair(a: Seq<Rat>, p: Seq<Rat>) -> bool {
    a.len() == p.len() && a.len() > 0
}

/// Check that two vectors are fit for metric calculations: same length,
/// neither empty. The universal entry guard of the metrics.
pub fn check_vectors(y_true: &Vec<Ratio>, y_pred: &Vec<Ratio>) -> (r: bool)
    ensures
        r == valid_pair(rat_seq(y_true@), rat_seq(y_pred@)),
{
    y_true.len() > 0 && y_true.len() == y_pred.len()
}

/// The mean of a sequence of rationals: its sum divided by its length.
pub open spec fn mean_value(s: Seq<Rat>) -> Rat {
    rat_div(seq_sum(s), rat_from_int(s.len() as int))
}

/// The exact mean can be computed in checked arithmetic: the running sum
/// stays in range and so does the final quotient.
pub open spec fn mean_fits(s: Seq<Rat>) -> bool {
    seq_sum_fits(s) && rat_fits(mean_value(s))
}

/// Arithmetic mean of a vector. `None` on the empty vector — the sentinel
/// for an undefined result — and when the exact sum or quotient leaves the
/// coefficient range.
pub fn mean(values: &Vec<Ratio>) -> (r: Option<Ratio>)
    requires
        ratio_seq_wf(values@),
    ensures
        values@.len() == 0 ==> r is None,
        r matches Some(v) ==> v.wf() && v@ == mean_value(rat_seq(values@)),
        values@.len() > 0 ==> (r is Some <==> mean_fits(rat_seq(values@))),
{
    let ghost s = rat_seq(values@);
    let n = values.len();
    if n == 0 {
        return None;
    }
    let mut acc = Ratio::zero();
    let mut i: usize = 0;
    while i < n
        invariant
            n == values@.len(),
            i <= n,
            s == rat_seq(values@),
            seq_rat_wf(s),
            acc.wf(),
            acc@ == seq_sum(s.take(i as int)),
            seq_sum_fits(s.take(i as int)),
        decreases n - i,
    {
        let x = values[i];
        proof {
            assert(x@ == s[i as int]);
            assert(rat_wf(s[i as int]));
        }
        let step = acc.checked_add(&x);
        proof {
            assert(s.take(i + 1).drop_last() =~= s.take(i as int));
            assert(s.take(i + 1).last() == s[i as int]);
        }
        match step {
            Some(a2) => {
                acc = a2;
            },
            None => {
                proof {
                    if seq_sum_fits(s) {
                        lemma_seq_sum_fits_prefix(s, i + 1);
                    }
                }
                return None;
            },
        }
        i = i + 1;
    }
    proof {
        assert(s.take(n as int) =~= s);
        lemma_seq_sum_wf(s);
    }
    let denom = match Ratio::from_usize(n) {
        Some(d) => d,
        None => {
            proof {
                lemma_mul_pos(seq_sum(s).d, n as int);
            }
            return None;
        },
    };
    acc.checked_div(&denom)
}

/// The squared deviations of a sequence from a given value m.
pub open spec fn dev_sq_terms(s: Seq<Rat>, m: Rat) -> Seq<Rat> {
    Seq::new(s.len(), |i: int| rat_mul(rat_sub(s[i], m), rat_sub(s[i], m)))
}

/// The sum of squared deviations can be computed in checked arithmetic:
/// every deviation, every square, and every partial sum stays in range.
pub open spec fn sum_sq_dev_fits(s: Seq<Rat>, m: Rat) -> bool {
    &&& forall|i: int|
        0 <= i < s.len() ==> rat_fits(#[trigger] rat_sub(s[i], m)) && rat_fits(
            rat_mul(rat_sub(s[i], m), rat_sub(s[i], m)),
        )
    &&& seq_sum_fits(dev_sq_terms(s, m))
}

/// Σ (vᵢ − mean)² over the vector, for a caller-supplied mean — the mean is
/// not recomputed here, so one mean can be reused across calls. `None` when
/// the exact arithmetic leaves the coefficient range; the empty sum is zero.
pub fn sum_of_squares(values: &Vec<Ratio>, mean: &Ratio) -> (r: Option<Ratio>)
    requires
        ratio_seq_wf(values@),
        mean.wf(),
    ensures
        r matches Some(v) ==> v.wf() && v@ == seq_sum(dev_sq_terms(rat_seq(values@), mean@)),
        r is Some <==> sum_sq_dev_fits(rat_seq(values@), mean@),
{
    let ghost s = rat_seq(values@);
    let ghost terms = dev_sq_terms(s, mean@);
    let n = values.len();
    let mut acc = Ratio::zero();
    let mut i: usize = 0;
    while i < n
        invariant
            n == values@.len(),
            i <= n,
            s == rat_seq(values@),
            terms == dev_sq_terms(s, mean@),
            seq_rat_wf(s),
            mean.wf(),
            acc.wf(),
            acc@ == seq_sum(terms.take(i as int)),
            seq_sum_fits(terms.take(i as int)),
            forall|j: int|
                0 <= j < i ==> rat_fits(#[trigger] rat_sub(s[j], mean@)) && rat_fits(
                    rat_mul(rat_sub(s[j], mean@), rat_sub(s[j], mean@)),
                ),
        decreases n - i,
    {
        let x = values[i];
        proof {
            assert(x@ == s[i as int]);
            assert(rat_wf(s[i as int]));
        }
        let d = match x.checked_sub(mean) {
            Some(d) => d,
            None => {
                return None;
            },
        };
        let t = match d.checked_mul(&d) {
            Some(t) => t,
            None => {
                return None;
            },
        };
        proof {
            assert(terms.take(i + 1).drop_last() =~= terms.take(i as int));
            assert(terms.take(i + 1).last() == terms[i as int]);
        }
        match acc.checked_add(&t) {
            Some(a2) => {
                acc = a2;
            },
            None => {
                proof {
                    if seq_sum_fits(terms) {
                        lemma_seq_sum_fits_prefix(terms, i + 1);
                    }
                }
                return None;
            },
        }
        i = i + 1;
    }
    proof {
        assert(terms.take(n as int) =~= terms);
    }
    Some(acc)
}

/// The squared residuals of a prediction: (actualᵢ − predictedᵢ)².
pub open spec fn err_sq_terms(a: Seq<Rat>, p: Seq<Rat>) -> Seq<Rat> {
    Seq::new(a.len(), |i: int| rat_mul(rat_sub(a[i], p[i]), rat_sub(a[i], p[i])))
}

/// The residual sum of squares can be computed in checked arithmetic.
pub open spec fn sum_sq_err_fits(a: Seq<Rat>, p: Seq<Rat>) -> bool {
    &&& forall|i: int|
        0 <= i < a.len() ==> rat_fits(#[trigger] rat_sub(a[i], p[i])) && rat_fits(
            rat_mul(rat_sub(a[i], p[i]), rat_sub(a[i], p[i])),
        )
    &&& seq_sum_fits(err_sq_terms(a, p))
}

/// Σ (actualᵢ − predictedᵢ)², the residual sum shared by the mean squared
/// error and R². `None` when the exact arithmetic leaves the coefficient
/// range; the empty sum is zero.
pub fn sum_squared_errors(y_true: &Vec<Ratio>, y_pred: &Vec<Ratio>) -> (r: Option<Ratio>)
    requires
        ratio_seq_wf(y_true@),
        ratio_seq_wf(y_pred@),
        y_true@.len() == y_pred@.len(),
    ensures
        r matches Some(v) ==> v.wf() && v@ == seq_sum(
            err_sq_terms(rat_seq(y_true@), rat_seq(y_pred@)),
        ),
        r is Some <==> sum_sq_err_fits(rat_seq(y_true@), rat_seq(y_pred@)),
{
    let ghost a = rat_seq(y_true@);
    let ghost p = rat_seq(y_pred@);
    let ghost terms = err_sq_terms(a, p);
    let n = y_true.len();
    let mut acc = Ratio::zero();
    let mut i: usize = 0;
    while i < n
        invariant
            n == y_true@.len(),
            n == y_pred@.len(),
            i <= n,
            a == rat_seq(y_true@),
            p == rat_seq(y_pred@),
            terms == err_sq_terms(a, p),
            seq_rat_wf(a),
            seq_rat_wf(p),
            acc.wf(),
            acc@ == seq_sum(terms.take(i as int)),
            seq_sum_fits(terms.take(i as int)),
            forall|j: int|
                0 <= j < i ==> rat_fits(#[trigger] rat_sub(a[j], p[j])) && rat_fits(
                    rat_mul(rat_sub(a[j], p[j]), rat_sub(a[j], p[j])),
                ),
        decreases n - i,
    {
        let x = y_true[i];
        let y = y_pred[i];
        proof {
            assert(x@ == a[i as int]);
            assert(y@ == p[i as int]);
            assert(rat_wf(a[i as int]));
            assert(rat_wf(p[i as int]));
        }
        let d = match x.checked_sub(&y) {
            Some(d) => d,
            None => {
                return None;
            },
        };
        let t = match d.checked_mul(&d) {
            Some(t) => t,
            None => {
                return None;
            },
        };
        proof {
            assert(terms.take(i + 1).drop_last() =~= terms.take(i as int));
            assert(terms.take(i + 1).last() == terms[i as int]);
        }
        match acc.checked_add(&t) {
            Some(a2) => {
                acc = a2;
            },
            None => {
                proof {
                    if seq_sum_fits(terms) {
                        lemma_seq_sum_fits_prefix(terms, i + 1);
                    }
                }
                return None;
            },
        }
        i = i + 1;
    }
    proof {
        assert(terms.take(n as int) =~= terms);
    }
    Some(acc)
}

} // verus!
