//! The fixed-budget optimization loop.
//!
//! `run_steps` drives an abstract quasi-Newton stepper for at most
//! `max_steps` iterations, stopping early when the stepper reports
//! convergence and aborting on the first error. Besides the run result
//! it returns ghost evidence of the run: the outcomes the stepper
//! actually produced, in order, and for each invocation the stepper
//! value before and after it. The contract pins the result down as a
//! function of the trace — the budget is respected, a `Converged`
//! outcome is always the last entry, and the evaluation counter equals
//! one (for the initial evaluation) plus the sum of the evaluations each
//! outcome reported — and ties the trace itself to the calls the loop
//! really made: every entry, and every propagated error, carries a
//! `call_ensures` fact of a genuine `backward_step` invocation on the
//! then-current loss.

use vstd::prelude::*;

verus! {

/// What a single quasi-Newton step reports back: either one admissible
/// step was taken (`Stepped`) or the optimizer's convergence criterion
/// is satisfied (`Converged`). Both carry the new loss value and the
/// number of additional function/gradient evaluations the step consumed.
#[derive(Debug)]
pub enum StepOutcome<L> {
    Converged(L, usize),
    Stepped(L, usize),
}

/// A model that can evaluate its scalar loss and a secondary diagnostic
/// metric. The loss type `L` is opaque to the driver: it is carried
/// through the loop and handed back unchanged.
pub trait SimpleModel<L, E> {
    fn loss(&self) -> Result<L, E>;

    fn test_eval(&self) -> Result<L, E>;
}

/// A stateful single-step optimization primitive: one call performs one
/// quasi-Newton update (internally a line search) given the current
/// loss. The stepper is consumed and handed back so that the driver's
/// contracts can speak, through `call_ensures`, of the calls that were
/// actually made.
pub trait Stepper<L, E>: Sized {
    fn backward_step(self, loss: &L) -> (Self, Result<StepOutcome<L>, E>);
}

/// The outcome of a whole run: the final loss, the total number of
/// function evaluations (the initial evaluation plus everything the
/// steps reported), whether the stepper declared convergence, and how
/// many step invocations returned an outcome.
#[derive(Debug)]
pub struct RunResult<L> {
    pub loss: L,
    pub fn_evals: u128,
    pub converged: bool,
    pub steps: usize,
}

/// Where a failed run went wrong: the model's loss evaluation, the
/// optimizer's construction, or a single optimizer step. The underlying
/// error is propagated unchanged.
#[derive(Debug)]
pub enum DriverError<E> {
    Evaluation(E),
    OptimizerInit(E),
    Step(E),
}

/// Ghost evidence of what the loop did: the outcomes the stepper
/// returned, in order, and for each of those calls the stepper value
/// before and after it (a failing call's pair is appended last, without
/// an outcome).
pub struct StepEvidence<L, S> {
    pub trace: Seq<StepOutcome<L>>,
    pub steppers: Seq<(S, S)>,
}

/// Ghost evidence of a whole run: the initial loss the model reported
/// (meaningful unless the run failed on that very evaluation), plus the
/// loop's trace and stepper witnesses.
pub struct DriverEvidence<L, S> {
    pub initial: L,
    pub trace: Seq<StepOutcome<L>>,
    pub steppers: Seq<(S, S)>,
}

/// The evaluations reported by one outcome.
pub open spec fn outcome_evals<L>(o: StepOutcome<L>) -> nat {
    match o {
        StepOutcome::Converged(_, e) => e as nat,
        StepOutcome::Stepped(_, e) => e as nat,
    }
}

/// The loss carried by one outcome.
pub open spec fn outcome_loss<L>(o: StepOutcome<L>) -> L {
    match o {
        StepOutcome::Converged(l, _) => l,
        StepOutcome::Stepped(l, _) => l,
    }
}

/// The sum of the evaluations reported by a sequence of outcomes.
pub open spec fn sum_evals<L>(s: Seq<StepOutcome<L>>) -> nat
    decreases s.len(),
{
    if s.len() == 0 {
        0
    } else {
        sum_evals(s.drop_last()) + outcome_evals(s.last())
    }
}

/// Total function evaluations of a run: the mandatory initial
/// evaluation plus everything the steps reported.
pub open spec fn total_evals<L>(s: Seq<StepOutcome<L>>) -> nat {
    1 + sum_evals(s)
}

/// A trace the loop can produce under budget `max_steps`: at most
/// `max_steps` outcomes, and every outcome before the last one is
/// `Stepped` — a `Converged` outcome ends the loop at once, so it can
/// only stand last.
pub open spec fn valid_trace<L>(s: Seq<StepOutcome<L>>, max_steps: nat) -> bool {
    &&& s.len() <= max_steps
    &&& forall|i: int| 0 <= i < s.len() - 1 ==> s[i] is Stepped
}

/// Whether a trace ends in convergence.
pub open spec fn trace_converged<L>(s: Seq<StepOutcome<L>>) -> bool {
    s.len() > 0 && s.last() is Converged
}

/// The loss a run ends with: the initial loss if no step produced an
/// outcome, otherwise the loss of the last outcome.
pub open spec fn final_loss<L>(initial: L, s: Seq<StepOutcome<L>>) -> L {
    if s.len() == 0 {
        initial
    } else {
        outcome_loss(s.last())
    }
}

/// Every outcome of the trace came out of a genuine `backward_step`
/// call, witnessed by the stepper values before and after it, and that
/// call was fed the then-current loss: the initial loss for the first
/// call, the loss of outcome `j - 1` for call `j`.
pub open spec fn witnessed_trace<L, E, S: Stepper<L, E>>(
    initial: L,
    trace: Seq<StepOutcome<L>>,
    steppers: Seq<(S, S)>,
) -> bool {
    &&& steppers.len() >= trace.len()
    &&& forall|j: int| 0 <= j < trace.len() ==> call_ensures(S::backward_step, ((
    #[trigger] steppers[j]).0, &final_loss(initial, trace.take(j))), (steppers[j].1, Ok::<
        StepOutcome<L>,
        E,
    >(trace[j])))
}

/// Every outcome reports at most `usize::MAX` evaluations, so the sum
/// over a trace is bounded by its length times `usize::MAX`.
pub proof fn lemma_sum_evals_bound<L>(s: Seq<StepOutcome<L>>)
    ensures
        sum_evals(s) <= s.len() * (usize::MAX as nat),
    decreases s.len(),
{
    if s.len() == 0 {
    } else {
        lemma_sum_evals_bound(s.drop_last());
        assert((s.len() - 1) * (usize::MAX as int) + (usize::MAX as int) == s.len() * (
        usize::MAX as int)) by (nonlinear_arith);
    }
}

/// A converged outcome short-circuits the remaining budget: in any
/// trace the loop can produce, an outcome reported as `Converged` is the
/// final invocation — no later outcome exists, however much budget was
/// left.
pub proof fn lemma_converged_is_last<L>(s: Seq<StepOutcome<L>>, max_steps: nat, k: int)
    requires
        valid_trace(s, max_steps),
        0 <= k < s.len(),
        s[k] is Converged,
    ensures
        s.len() == k + 1,
{
}

/// Appending an outcome that came out of a `backward_step` call on the
/// trace's current loss, together with that call's stepper pair, keeps
/// the whole trace witnessed.
proof fn lemma_witness_extend<L, E, S: Stepper<L, E>>(
    initial: L,
    trace: Seq<StepOutcome<L>>,
    steppers: Seq<(S, S)>,
    rec: StepOutcome<L>,
    s0: S,
    s1: S,
)
    requires
        witnessed_trace::<L, E, S>(initial, trace, steppers),
        steppers.len() == trace.len(),
        call_ensures(S::backward_step, (s0, &final_loss(initial, trace)), (s1, Ok::<
            StepOutcome<L>,
            E,
        >(rec))),
    ensures
        witnessed_trace::<L, E, S>(initial, trace.push(rec), steppers.push((s0, s1))),
{
    let t2 = trace.push(rec);
    let w2 = steppers.push((s0, s1));
    assert forall|j: int| 0 <= j < t2.len() implies call_ensures(S::backward_step, ((
    #[trigger] w2[j]).0, &final_loss(initial, t2.take(j))), (w2[j].1, Ok::<StepOutcome<L>, E>(
        t2[j],
    ))) by {
        if j < trace.len() {
            assert(t2.take(j) =~= trace.take(j));
            assert(t2[j] == trace[j]);
            assert(w2[j] == steppers[j]);
            assert(call_ensures(S::backward_step, (steppers[j].0, &final_loss(initial, trace.take(
                j,
            ))), (steppers[j].1, Ok::<StepOutcome<L>, E>(trace[j]))));
        } else {
            assert(t2.take(j) =~= trace);
            assert(t2[j] == rec);
            assert(w2[j] == (s0, s1));
        }
    }
}

/// Appending one outcome extends the evaluation sum by what that
/// outcome reported, and the widened counter cannot overflow.
proof fn push_outcome<L>(trace: Seq<StepOutcome<L>>, rec: StepOutcome<L>, fn_evals: u128)
    requires
        fn_evals as nat == total_evals(trace),
        trace.len() <= usize::MAX as nat,
    ensures
        trace.push(rec).drop_last() =~= trace,
        sum_evals(trace.push(rec)) == sum_evals(trace) + outcome_evals(rec),
        fn_evals as int + outcome_evals(rec) <= u128::MAX as int,
{
    assert(trace.push(rec).drop_last() =~= trace);
    lemma_sum_evals_bound(trace);
    assert(usize::MAX as int <= u64::MAX as int);
    assert(trace.len() * (usize::MAX as int) <= (u64::MAX as int) * (u64::MAX as int))
        by (nonlinear_arith)
        requires
            trace.len() <= u64::MAX as int,
            usize::MAX as int <= u64::MAX as int,
    ;
}

/// The core loop: drive `stepper` from `initial_loss` for at most
/// `max_steps` invocations, stopping early on a `Converged` outcome and
/// aborting on the first error. The ghost component of the result is the
/// evidence of the run (outcome trace and stepper witnesses), and the
/// stepper itself is handed back. The contract ties the run result to
/// the trace exactly, and the trace to the calls really made:
/// `witnessed_trace` vouches for every recorded outcome, and a
/// propagated error is what a genuine `backward_step` call on the
/// current loss returned.
pub fn run_steps<L, E, S: Stepper<L, E>>(initial_loss: L, stepper: S, max_steps: usize) -> (r: (
    Result<RunResult<L>, E>,
    Ghost<StepEvidence<L, S>>,
    S,
))
    ensures
        valid_trace(r.1@.trace, max_steps as nat),
        witnessed_trace::<L, E, S>(initial_loss, r.1@.trace, r.1@.steppers),
        r.0 is Ok ==> r.1@.steppers.len() == r.1@.trace.len(),
        r.0 matches Ok(rr) ==> (rr.fn_evals as nat == total_evals(r.1@.trace) && rr.converged
            == trace_converged(r.1@.trace) && rr.loss == final_loss(initial_loss, r.1@.trace)
            && rr.steps == r.1@.trace.len() && (!rr.converged ==> r.1@.trace.len() == max_steps)),
        r.0 matches Err(e) ==> (r.1@.trace.len() < max_steps && !trace_converged(r.1@.trace)
            && r.1@.steppers.len() == r.1@.trace.len() + 1 && call_ensures(S::backward_step, (
            r.1@.steppers.last().0,
            &final_loss(initial_loss, r.1@.trace),
        ), (r.1@.steppers.last().1, Err::<StepOutcome<L>, E>(e)))),
        max_steps == 0 ==> (r.0 matches Ok(rr) && rr.loss == initial_loss && rr.fn_evals == 1
            && !rr.converged && rr.steps == 0),
{
    let mut loss: L = initial_loss;
    let mut st: S = stepper;
    let mut fn_evals: u128 = 1;
    let mut converged: bool = false;
    let mut step: usize = 0;
    let ghost mut trace: Seq<StepOutcome<L>> = Seq::empty();
    let ghost mut steppers: Seq<(S, S)> = Seq::empty();
    while step < max_steps && !converged
        invariant
            step <= max_steps,
            trace.len() == step as nat,
            steppers.len() == trace.len(),
            converged == trace_converged(trace),
            valid_trace(trace, max_steps as nat),
            witnessed_trace::<L, E, S>(initial_loss, trace, steppers),
            !converged ==> (forall|i: int| 0 <= i < trace.len() ==> trace[i] is Stepped),
            fn_evals as nat == total_evals(trace),
            loss == final_loss(initial_loss, trace),
        decreases max_steps - step,
    {
        let ghost st_pre = st;
        let (st2, res) = st.backward_step(&loss);
        st = st2;
        match res {
            Err(e) => {
                proof {
                    assert(call_ensures(S::backward_step, (st_pre, &final_loss(
                        initial_loss,
                        trace,
                    )), (st, Err::<StepOutcome<L>, E>(e))));
                    steppers = steppers.push((st_pre, st));
                }
                return (Err(e), Ghost(StepEvidence { trace, steppers }), st);
            },
            Ok(StepOutcome::Converged(new_loss, evals)) => {
                proof {
                    let rec = StepOutcome::Converged(new_loss, evals);
                    assert(call_ensures(S::backward_step, (st_pre, &final_loss(
                        initial_loss,
                        trace,
                    )), (st, Ok::<StepOutcome<L>, E>(rec))));
                    push_outcome(trace, rec, fn_evals);
                    lemma_witness_extend::<L, E, S>(initial_loss, trace, steppers, rec, st_pre, st);
                    trace = trace.push(rec);
                    steppers = steppers.push((st_pre, st));
                }
                fn_evals = fn_evals + evals as u128;
                loss = new_loss;
                converged = true;
                step = step + 1;
            },
            Ok(StepOutcome::Stepped(new_loss, evals)) => {
                proof {
                    let rec = StepOutcome::Stepped(new_loss, evals);
                    assert(call_ensures(S::backward_step, (st_pre, &final_loss(
                        initial_loss,
                        trace,
                    )), (st, Ok::<StepOutcome<L>, E>(rec))));
                    push_outcome(trace, rec, fn_evals);
                    lemma_witness_extend::<L, E, S>(initial_loss, trace, steppers, rec, st_pre, st);
                    trace = trace.push(rec);
                    steppers = steppers.push((st_pre, st));
                }
                fn_evals = fn_evals + evals as u128;
                loss = new_loss;
                step = step + 1;
            },
        }
    }
    (
        Ok(RunResult { loss, fn_evals, converged, steps: step }),
        Ghost(StepEvidence { trace, steppers }),
        st,
    )
}

/// A whole run as the reference design shapes it: evaluate the initial
/// loss (a failure there aborts with `Evaluation` before any step runs),
/// take over a freshly constructed stepper (a construction failure
/// aborts with `OptimizerInit`, still before any step runs), then hand
/// off to `run_steps`, wrapping a step failure as `Step`. Non-convergence
/// within the budget is not an error: the run still succeeds and reports
/// `converged == false`. Every answer has provenance: an `Evaluation`
/// error is what the model's `loss` call returned, an `OptimizerInit`
/// error is the constructor's, a `Step` error came out of a genuine
/// `backward_step` call on the current loss, and any other answer rests
/// on a genuine successful `loss` call whose value seeds the witnessed
/// trace and, through it, the returned loss. Diagnostics (logging, the
/// secondary test metric) are the caller's business and play no part in
/// the result.
pub fn run_lbfgs_training<L, E, M: SimpleModel<L, E>, S: Stepper<L, E>>(
    model: &M,
    stepper_init: Result<S, E>,
    max_steps: usize,
) -> (r: (Result<RunResult<L>, DriverError<E>>, Ghost<DriverEvidence<L, S>>))
    ensures
        valid_trace(r.1@.trace, max_steps as nat),
        witnessed_trace::<L, E, S>(r.1@.initial, r.1@.trace, r.1@.steppers),
        r.0 matches Ok(rr) ==> (rr.fn_evals as nat == total_evals(r.1@.trace) && rr.converged
            == trace_converged(r.1@.trace) && rr.steps == r.1@.trace.len() && (!rr.converged
            ==> r.1@.trace.len() == max_steps)),
        r.0 matches Ok(rr) ==> rr.loss == final_loss(r.1@.initial, r.1@.trace),
        r.0 matches Ok(rr) ==> r.1@.trace.len() > 0 ==> rr.loss == outcome_loss(r.1@.trace.last()),
        r.0 matches Ok(rr) ==> r.1@.trace.len() == 0 ==> call_ensures(M::loss, (model,), Ok::<L, E>(
            rr.loss,
        )),
        r.0 matches Ok(_) || (r.0 matches Err(de) && !(de is Evaluation)) ==> call_ensures(M::loss, (
            model,
        ), Ok::<L, E>(r.1@.initial)),
        r.0 matches Err(e) ==> !(e is Step) ==> r.1@.trace.len() == 0,
        r.0 matches Err(de) ==> de matches DriverError::Evaluation(e) ==> call_ensures(M::loss, (
            model,
        ), Err::<L, E>(e)),
        r.0 matches Err(de) ==> de matches DriverError::OptimizerInit(e) ==> (stepper_init
            matches Err(ei) && ei == e),
        r.0 matches Err(de) ==> de matches DriverError::Step(e) ==> (r.1@.trace.len() < max_steps
            && !trace_converged(r.1@.trace) && r.1@.steppers.len() == r.1@.trace.len() + 1
            && call_ensures(S::backward_step, (
            r.1@.steppers.last().0,
            &final_loss(r.1@.initial, r.1@.trace),
        ), (r.1@.steppers.last().1, Err::<StepOutcome<L>, E>(e)))),
        stepper_init matches Err(e) ==> (r.0 matches Err(de) && (de is Evaluation || de
            == DriverError::<E>::OptimizerInit(e))),
        r.0 is Ok ==> stepper_init is Ok,
{
    let initial = match model.loss() {
        Ok(l) => l,
        Err(e) => {
            proof {
                assert(call_ensures(M::loss, (model,), Err::<L, E>(e)));
            }
            return (
                Err(DriverError::Evaluation(e)),
                Ghost(
                    DriverEvidence {
                        initial: arbitrary(),
                        trace: Seq::empty(),
                        steppers: Seq::empty(),
                    },
                ),
            );
        },
    };
    proof {
        assert(call_ensures(M::loss, (model,), Ok::<L, E>(initial)));
    }
    let stepper = match stepper_init {
        Ok(s) => s,
        Err(e) => {
            return (
                Err(DriverError::OptimizerInit(e)),
                Ghost(DriverEvidence { initial, trace: Seq::empty(), steppers: Seq::empty() }),
            );
        },
    };
    let (res, ev, _stepper) = run_steps(initial, stepper, max_steps);
    let ghost dev = DriverEvidence { initial, trace: ev@.trace, steppers: ev@.steppers };
    match res {
        Ok(rr) => (Ok(rr), Ghost(dev)),
        Err(e) => (Err(DriverError::Step(e)), Ghost(dev)),
    }
}

} // verus!
