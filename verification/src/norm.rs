//! Squared-L2-norm accumulation over an ordered collection of tensors.
//!
//! Each tensor is reduced to the scalar sum of its squared elements by
//! the caller-supplied `SumSquares` implementation; `l2_norm` folds the
//! reductions into a running total in the input order, starting from the
//! additive identity the caller passes in. The total is deliberately the
//! *squared* L2 norm: no square root is ever taken. The scalar type is
//! opaque here (callers use a high-precision floating-point value), so
//! the contract speaks through `call_ensures` facts about the trait
//! calls that were actually made: every recorded term is the genuine
//! reduction of its tensor, the result is the chained `plus` of those
//! terms from the identity, and a failed run propagates the reduction
//! error of the first tensor that could not be reduced.

use vstd::prelude::*;

verus! {

/// A tensor that can be reduced to the scalar sum of its squared
/// elements, over all dimensions. The reduction fails on a malformed
/// tensor (for instance one whose reduction result is not a true
/// scalar).
pub trait SumSquares<S, E> {
    fn sum_squares(&self) -> Result<S, E>;
}

/// A scalar that supports addition; `plus` must not fail or panic
/// (high-precision floating-point addition is total).
pub trait ScalarAccum: Sized {
    fn plus(&self, other: &Self) -> Self;
}

/// Accumulate the squared-sum reductions of `tensors` into a running
/// total, in the input order, starting from `zero`. Returns the total
/// (the squared L2 norm — no square root), or the first reduction error.
///
/// The ghost component records the run: `r.1@.0` holds the reduced
/// scalars in order (on success one for every tensor, on failure one for
/// each tensor before the failing one) and `r.1@.1` the partial totals,
/// from `zero` up to the returned result. The `call_ensures` clauses tie
/// both to the calls the body really made: term `j` came out of
/// `sum_squares` on tensor `j`, partial total `j + 1` came out of `plus`
/// on the previous total and term `j`, and an error is exactly what
/// `sum_squares` returned for the first unrecorded tensor.
pub fn l2_norm<T: SumSquares<S, E>, S: ScalarAccum, E>(tensors: &Vec<T>, zero: S) -> (r: (Result<
    S,
    E,
>, Ghost<(Seq<S>, Seq<S>)>))
    ensures
        r.1@.1.len() == r.1@.0.len() + 1,
        r.1@.1[0] == zero,
        forall|j: int| 0 <= j < r.1@.0.len() ==> call_ensures(T::sum_squares, (&tensors@[j],),
            Ok::<S, E>(#[trigger] r.1@.0[j])),
        forall|j: int| 0 <= j < r.1@.0.len() ==> call_ensures(S::plus, (&r.1@.1[j], &r.1@.0[j]),
            #[trigger] r.1@.1[j + 1]),
        r.0 matches Ok(s) ==> (r.1@.0.len() == tensors@.len() && s == r.1@.1[tensors@.len() as int]),
        r.0 matches Err(e) ==> (r.1@.0.len() < tensors@.len() && call_ensures(T::sum_squares, (
            &tensors@[r.1@.0.len() as int],
        ), Err::<S, E>(e))),
        tensors@.len() == 0 ==> (r.0 matches Ok(s) && s == zero),
{
    let mut norm: S = zero;
    let mut i: usize = 0;
    let ghost mut terms: Seq<S> = Seq::empty();
    let ghost mut totals: Seq<S> = seq![zero];
    while i < tensors.len()
        invariant
            i <= tensors@.len(),
            terms.len() == i as nat,
            totals.len() == i + 1,
            totals[0] == zero,
            norm == totals[i as int],
            forall|j: int| 0 <= j < i ==> call_ensures(T::sum_squares, (&tensors@[j],), Ok::<S, E>(
                #[trigger] terms[j],
            )),
            forall|j: int| 0 <= j < i ==> call_ensures(S::plus, (&totals[j], &terms[j]), #[trigger]
            totals[j + 1]),
        decreases tensors@.len() - i,
    {
        let term = match tensors[i].sum_squares() {
            Ok(t) => t,
            Err(e) => {
                return (Err(e), Ghost((terms, totals)));
            },
        };
        let next = norm.plus(&term);
        proof {
            terms = terms.push(term);
            totals = totals.push(next);
        }
        norm = next;
        i = i + 1;
    }
    (Ok(norm), Ghost((terms, totals)))
}

} // verus!
