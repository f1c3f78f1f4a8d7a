//! The escape-time rule: how many iterations to run, and when an orbit has escaped.
//!
//! The arithmetic on the iterates is done by whoever drives an [`Evaluation`]: each
//! time the evaluation asks for a step, the driver replaces the iterate `z` by
//! `z * z + c` at the precision of `c` and reports whether the squared magnitude of
//! the new iterate, rounded to [`MAGNITUDE_PRECISION`] bits, is strictly greater than
//! [`BAILOUT`].

use vstd::prelude::*;
use crate::types::{ComputePointResult, SerComplex};

verus! {

/// The squared magnitude that an iterate has to exceed for its orbit to count as escaped.
pub const BAILOUT: u32 = 4;

/// The bit precision to which a squared magnitude is rounded before it is compared.
pub const MAGNITUDE_PRECISION: u32 = 53;

/// What the driver of an evaluation does next.
#[derive(Clone, Copy, Debug, PartialEq, Eq, Structural)]
pub enum Directive {
    /// Run one more iteration and report whether the new iterate is beyond the bailout.
    Step,
    /// Run no more iterations: the iterate reached is the final one.
    Finish,
}

/// The progress of the evaluation of one point.
#[derive(Clone, Copy, Debug, PartialEq, Eq, Structural)]
pub struct Evaluation {
    /// The largest number of iterations to run.
    pub iterations: u32,
    /// The number of iterations run so far.
    pub computed_iterations: u32,
    /// The index of the iteration after which the iterate was beyond the bailout.
    pub escape_iteration: Option<u32>,
}

/// The index of the first observation among the first `budget` of `flags`, from
/// `from` on, that is true.
pub open spec fn first_escape(flags: Seq<bool>, budget: nat, from: nat) -> Option<nat>
    decreases budget - from,
{
    if from >= budget || from >= flags.len() {
        None
    } else if flags[from as int] {
        Some(from)
    } else {
        first_escape(flags, budget, from + 1)
    }
}

impl Evaluation {
    /// Whether the counters fit together: no more iterations were run than the
    /// budget allows, and an escape was seen at the last iteration run.
    pub open spec fn wf(&self) -> bool {
        &&& self.computed_iterations <= self.iterations
        &&& match self.escape_iteration {
            Some(i) => i + 1 == self.computed_iterations,
            None => true,
        }
    }

    /// The evaluation of which no iteration has been run.
    pub open spec fn spec_start(iterations: u32) -> Evaluation {
        Evaluation { iterations, computed_iterations: 0, escape_iteration: None }
    }

    /// What the driver does next: a step, unless the budget is used up or an
    /// escape was seen.
    pub open spec fn spec_directive(&self) -> Directive {
        if self.escape_iteration.is_none() && self.computed_iterations < self.iterations {
            Directive::Step
        } else {
            Directive::Finish
        }
    }

    /// The evaluation after one more iteration, where a step was asked for: one more
    /// iteration is counted, and an escape is recorded at its index if the new
    /// iterate is beyond the bailout.
    pub open spec fn spec_observe(&self, exceeded: bool) -> Evaluation {
        if self.spec_directive() == Directive::Step {
            Evaluation {
                iterations: self.iterations,
                computed_iterations: (self.computed_iterations + 1) as u32,
                escape_iteration: if exceeded {
                    Some(self.computed_iterations)
                } else {
                    None
                },
            }
        } else {
            *self
        }
    }

    /// The evaluation after the driver has answered every step that was asked for
    /// from `flags`, the answer to the first step first.
    pub open spec fn spec_run(&self, flags: Seq<bool>) -> Evaluation
        decreases flags.len(),
    {
        if flags.len() == 0 {
            *self
        } else {
            self.spec_observe(flags[0]).spec_run(flags.drop_first())
        }
    }

    /// An evaluation of which no iteration has been run.
    pub fn start(iterations: u32) -> (e: Evaluation)
        ensures
            e == Evaluation::spec_start(iterations),
            e.wf(),
    {
        Evaluation { iterations, computed_iterations: 0, escape_iteration: None }
    }

    /// What to do next: one more step as long as the budget is not used up and no
    /// iterate was beyond the bailout.
    pub fn directive(&self) -> (d: Directive)
        ensures
            d == self.spec_directive(),
    {
        if self.escape_iteration.is_none() && self.computed_iterations < self.iterations {
            Directive::Step
        } else {
            Directive::Finish
        }
    }

    /// Takes note of one iteration: `exceeded` says whether the new iterate is beyond
    /// the bailout. Where no step was asked for, nothing changes.
    pub fn observe(&mut self, exceeded: bool)
        ensures
            *final(self) == old(self).spec_observe(exceeded),
            old(self).wf() ==> final(self).wf(),
    {
        if self.escape_iteration.is_none() && self.computed_iterations < self.iterations {
            if exceeded {
                self.escape_iteration = Some(self.computed_iterations);
            }
            self.computed_iterations = self.computed_iterations + 1;
        }
    }

    /// The result of the evaluation of the point `c`, `final_value` being the iterate
    /// that was reached.
    pub fn finish(&self, c: SerComplex, final_value: SerComplex) -> (result: ComputePointResult)
        ensures
            result == self.spec_finish(c, final_value),
    {
        ComputePointResult {
            c,
            escape_iteration: self.escape_iteration,
            computed_iterations: self.computed_iterations,
            final_value,
        }
    }

    /// The result made of the point, the counters and the final iterate.
    pub open spec fn spec_finish(&self, c: SerComplex, final_value: SerComplex) -> ComputePointResult {
        ComputePointResult {
            c,
            escape_iteration: self.escape_iteration,
            computed_iterations: self.computed_iterations,
            final_value,
        }
    }
}

/// Whether `e` is the outcome of the escape-time rule for a budget of `iterations`
/// on an orbit whose iterate after iteration `i` is beyond the bailout exactly
/// where `flags[i]` is true: the escape is recorded at the first such iteration
/// within the budget, and one iteration more than its index was run; where there
/// is none, no escape is recorded and the whole budget was run.
pub open spec fn is_outcome(e: Evaluation, iterations: u32, flags: Seq<bool>) -> bool {
    &&& e.wf()
    &&& e.iterations == iterations
    &&& e.spec_directive() == Directive::Finish
    &&& match e.escape_iteration {
        Some(i) => {
            &&& i < iterations
            &&& flags[i as int]
            &&& forall|j: int| 0 <= j < i ==> !#[trigger] flags[j]
            &&& e.computed_iterations == i + 1
        },
        None => {
            &&& forall|j: int| 0 <= j < iterations ==> !#[trigger] flags[j]
            &&& e.computed_iterations == iterations
        },
    }
}

/// Follows an orbit of which every iterate's standing is known beforehand:
/// `flags[i]` says whether the iterate after iteration `i` is beyond the bailout.
/// Returns the evaluation once it asks for no more steps, or once `flags` is used
/// up. With a flag for every iteration of the budget, that is the outcome of the
/// escape-time rule.
pub fn classify(iterations: u32, flags: &[bool]) -> (e: Evaluation)
    ensures
        e == Evaluation::spec_start(iterations).spec_run(flags@),
        e.wf(),
        flags@.len() >= iterations ==> is_outcome(e, iterations, flags@),
{
    let mut e = Evaluation::start(iterations);
    let mut i: usize = 0;
    assert(flags@.subrange(0, flags@.len() as int) =~= flags@);
    while i < flags.len()
        invariant
            i <= flags.len(),
            e.wf(),
            e.spec_run(flags@.subrange(i as int, flags@.len() as int)) == Evaluation::spec_start(
                iterations,
            ).spec_run(flags@),
        decreases flags.len() - i,
    {
        let ghost rest = flags@.subrange(i as int, flags@.len() as int);
        assert(rest.drop_first() =~= flags@.subrange(i as int + 1, flags@.len() as int));
        assert(rest[0] == flags@[i as int]);
        e.observe(flags[i]);
        i = i + 1;
    }
    assert(flags@.subrange(i as int, flags@.len() as int).len() == 0);
    proof {
        if flags@.len() >= iterations {
            lemma_run_ends_at_first_escape(iterations, flags@);
        }
    }
    e
}

/// From an evaluation without an escape, of which `from` iterations were run, the
/// run over the remaining observations ends at the first true one among those that
/// the budget still allows, or at the end of the budget.
proof fn lemma_run_from(e: Evaluation, all: Seq<bool>, from: nat)
    requires
        e.wf(),
        e.escape_iteration.is_none(),
        e.computed_iterations == from,
        from <= all.len(),
        all.len() >= e.iterations,
    ensures
        e.spec_run(all.subrange(from as int, all.len() as int)).iterations == e.iterations,
        match first_escape(all, e.iterations as nat, from) {
            Some(i) => {
                let done = e.spec_run(all.subrange(from as int, all.len() as int));
                done.escape_iteration == Some(i as u32) && done.computed_iterations == i + 1
            },
            None => {
                let done = e.spec_run(all.subrange(from as int, all.len() as int));
                done.escape_iteration.is_none() && done.computed_iterations == e.iterations
            },
        },
    decreases all.len() - from,
{
    let rest = all.subrange(from as int, all.len() as int);
    if rest.len() == 0 {
    } else {
        assert(rest[0] == all[from as int]);
        assert(rest.drop_first() =~= all.subrange(from as int + 1, all.len() as int));
        let next = e.spec_observe(rest[0]);
        if from >= e.iterations {
            lemma_run_idle(e, rest);
        } else if all[from as int] {
            lemma_run_idle(next, rest.drop_first());
        } else {
            lemma_run_from(next, all, from + 1);
        }
    }
}

/// An evaluation that asks for no more steps is not changed by further observations.
pub proof fn lemma_run_idle(e: Evaluation, flags: Seq<bool>)
    requires
        e.spec_directive() == Directive::Finish,
    ensures
        e.spec_run(flags) == e,
    decreases flags.len(),
{
    if flags.len() > 0 {
        lemma_run_idle(e, flags.drop_first());
    }
}

/// An evaluation that is driven until it asks for no more steps ends in the outcome
/// of the escape-time rule. Where, among the first `iterations` observations, the
/// one of index `i` is the first that is true, the escape is recorded at iteration
/// `i` and `i + 1` iterations were run; where none is true, no escape is recorded
/// and exactly `iterations` iterations were run.
pub proof fn lemma_run_ends_at_first_escape(iterations: u32, flags: Seq<bool>)
    requires
        flags.len() >= iterations,
    ensures
        is_outcome(Evaluation::spec_start(iterations).spec_run(flags), iterations, flags),
{
    let e = Evaluation::spec_start(iterations);
    assert(flags.subrange(0, flags.len() as int) =~= flags);
    lemma_run_from(e, flags, 0);
    lemma_first_escape_is_first(flags, iterations as nat, 0);
}

/// What `first_escape` returns is the least index from `from` on, below the budget,
/// at which the observation is true, and `None` only where there is no such index.
pub proof fn lemma_first_escape_is_first(flags: Seq<bool>, budget: nat, from: nat)
    requires
        flags.len() >= budget,
    ensures
        match first_escape(flags, budget, from) {
            Some(i) => {
                &&& from <= i < budget
                &&& flags[i as int]
                &&& forall|j: int| from <= j < i ==> !#[trigger] flags[j]
            },
            None => forall|j: int| from <= j < budget ==> !#[trigger] flags[j],
        },
    decreases budget - from,
{
    if from < budget && !flags[from as int] {
        lemma_first_escape_is_first(flags, budget, from + 1);
    }
}

} // verus!
