//! Sums of sequences of rational values, and the facts about them that the
//! metric contracts rest on: well-formedness, nonnegativity, the behaviour
//! of prefixes, and the sum of a constant sequence.

use vstd::prelude::*;

use crate::rational::Rat;
use crate::rational::lemma_mul_both;
use crate::rational::lemma_mul_nonneg;
use crate::rational::lemma_mul_pos;
use crate::rational::rat_add;
use crate::rational::rat_eq;
use crate::rational::rat_fits;
use crate::rational::rat_wf;
use crate::rational::rat_zero;

verus! {

/// Every element of the sequence is well-formed.
pub open spec fn seq_rat_wf(s: Seq<Rat>) -> bool {
    forall|i: int| 0 <= i < s.len() ==> rat_wf(#[trigger] s[i])
}

/// The sum of a sequence of rationals, folded from the left; the empty sum
/// is zero.
pub open spec fn seq_sum(s: Seq<Rat>) -> Rat
    decreases s.len(),
{
    if s.len() == 0 {
        rat_zero()
    } else {
        rat_add(seq_sum(s.drop_last()), s.last())
    }
}

/// Every partial sum of the fold, the final one included, fits the 64-bit
/// coefficient range: the fold can be carried out in checked arithmetic.
pub open spec fn seq_sum_fits(s: Seq<Rat>) -> bool
    decreases s.len(),
{
    if s.len() == 0 {
        true
    } else {
        seq_sum_fits(s.drop_last()) && rat_fits(seq_sum(s))
    }
}

/// The sum of well-formed values is well-formed.
pub proof fn lemma_seq_sum_wf(s: Seq<Rat>)
    requires
        seq_rat_wf(s),
    ensures
        rat_wf(seq_sum(s)),
    decreases s.len(),
{
    if s.len() > 0 {
        assert(seq_rat_wf(s.drop_last()));
        lemma_seq_sum_wf(s.drop_last());
        lemma_mul_pos(seq_sum(s.drop_last()).d, s.last().d);
    }
}

/// A sum of well-formed, nonnegative values has a nonnegative numerator.
pub proof fn lemma_seq_sum_nonneg(s: Seq<Rat>)
    requires
        seq_rat_wf(s),
        forall|i: int| 0 <= i < s.len() ==> (#[trigger] s[i]).n >= 0,
    ensures
        seq_sum(s).n >= 0,
    decreases s.len(),
{
    if s.len() > 0 {
        assert(seq_rat_wf(s.drop_last()));
        lemma_seq_sum_nonneg(s.drop_last());
        lemma_seq_sum_wf(s.drop_last());
        lemma_mul_nonneg(seq_sum(s.drop_last()).n, s.last().d);
        lemma_mul_nonneg(s.last().n, seq_sum(s.drop_last()).d);
    }
}

/// A sum of values whose numerators are all zero has numerator zero.
pub proof fn lemma_seq_sum_zero(s: Seq<Rat>)
    requires
        forall|i: int| 0 <= i < s.len() ==> (#[trigger] s[i]).n == 0,
    ensures
        seq_sum(s).n == 0,
    decreases s.len(),
{
    if s.len() > 0 {
        lemma_seq_sum_zero(s.drop_last());
    }
}

/// When the whole fold fits, so does the fold of every prefix.
pub proof fn lemma_seq_sum_fits_prefix(s: Seq<Rat>, i: int)
    requires
        0 <= i <= s.len(),
        seq_sum_fits(s),
    ensures
        seq_sum_fits(s.take(i)),
    decreases s.len(),
{
    if i == s.len() {
        assert(s.take(i) =~= s);
    } else {
        assert(s.take(i) =~= s.drop_last().take(i));
        lemma_seq_sum_fits_prefix(s.drop_last(), i);
    }
}

/// One step of summing a constant sequence: adding one more value equal to
/// r to a sum equal to k·r gives a sum equal to (k+1)·r.
proof fn lemma_sum_const_step(x: Rat, y: Rat, r: Rat, k: int)
    requires
        rat_wf(x),
        rat_wf(y),
        rat_wf(r),
        rat_eq(x, (Rat { n: k * r.n, d: r.d })),
        rat_eq(y, r),
    ensures
        rat_eq(rat_add(x, y), (Rat { n: (k + 1) * r.n, d: r.d })),
{
    lemma_mul_both(x.n * r.d, (k * r.n) * x.d, y.d);
    lemma_mul_both(y.n * r.d, r.n * y.d, x.d);
    assert((x.n * y.d + y.n * x.d) * r.d == (x.n * r.d) * y.d + (y.n * r.d) * x.d)
        by (nonlinear_arith);
    assert(((k * r.n) * x.d) * y.d + (r.n * y.d) * x.d == ((k + 1) * r.n) * (x.d * y.d))
        by (nonlinear_arith);
}

/// The sum of a sequence whose elements all equal r is len·r.
pub proof fn lemma_seq_sum_const(s: Seq<Rat>, r: Rat)
    requires
        seq_rat_wf(s),
        rat_wf(r),
        forall|i: int| 0 <= i < s.len() ==> rat_eq(#[trigger] s[i], r),
    ensures
        rat_eq(seq_sum(s), (Rat { n: s.len() * r.n, d: r.d })),
    decreases s.len(),
{
    if s.len() == 0 {
        assert(rat_eq(rat_zero(), (Rat { n: 0 * r.n, d: r.d }))) by (nonlinear_arith);
    } else {
        assert(seq_rat_wf(s.drop_last()));
        lemma_seq_sum_const(s.drop_last(), r);
        lemma_seq_sum_wf(s.drop_last());
        lemma_sum_const_step(seq_sum(s.drop_last()), s.last(), r, s.len() - 1);
    }
}

} // verus!
