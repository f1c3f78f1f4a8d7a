//! The course of one computation: look the result up, and where the store does not
//! have it, decode the point, follow its orbit, keep the result and return it.
//!
//! A [`Computation`] decides; its driver acts. Each [`Action`] asks the driver for
//! one piece of outside work (a read or a write of the store, a conversion between
//! decimal text and numbers, one iteration of the orbit), and the driver answers
//! with the matching [`Event`].

use vstd::prelude::*;
use crate::evaluate::{
    is_outcome, lemma_run_ends_at_first_escape, lemma_run_idle, Directive, Evaluation,
};
use crate::key::{cache_key, derive_key};
use crate::types::{ComputePointRequest, ComputePointResult, S3Config, SerComplex, SerFloat};

verus! {

/// Why a point could not be decoded.
#[derive(Clone, Copy, Debug, PartialEq, Eq, Structural)]
pub enum NumericError {
    /// A coordinate is not the decimal text of a number.
    InvalidNumericFormat,
    /// A precision is not a bit count that numbers can be held at.
    UnsupportedPrecision,
}

/// What the store answered to a read.
#[derive(Clone, Debug, PartialEq, Eq)]
pub enum StoreLookup {
    /// The store holds this result under the key.
    Hit(ComputePointResult),
    /// The store holds nothing under the key.
    Miss,
    /// The store could not be read; the text says why.
    Unavailable(String),
}

/// What the driver reports back.
#[derive(Debug, PartialEq, Eq)]
pub enum Event {
    /// The answer to [`Action::Get`].
    Lookup(StoreLookup),
    /// The answer to [`Action::Decode`]: the point at its precision, or why there is none.
    Decoded(Result<SerComplex, NumericError>),
    /// The answer to [`Action::Step`]: whether the new iterate is beyond the bailout.
    Stepped(bool),
    /// The answer to [`Action::Encode`]: the iterate that was reached.
    Encoded(SerComplex),
    /// The answer to [`Action::Put`]: whether the result was written.
    Stored(bool),
}

/// What the driver is asked to do.
#[derive(Clone, Debug, PartialEq, Eq)]
pub enum Action {
    /// Read the store under this key.
    Get(String),
    /// Turn this point's decimal text into numbers at the precisions given with it,
    /// and take the point as the first iterate.
    Decode(SerComplex),
    /// Run one iteration.
    Step,
    /// Write the current iterate as decimal text.
    Encode,
    /// Write this result to the store under this key.
    Put(String, ComputePointResult),
    /// Hand this result to the caller: the computation is over.
    Return(ComputePointResult),
    /// Hand this error to the caller: the computation is over.
    Fail(NumericError),
    /// The event did not answer what was asked: nothing has changed.
    Rejected,
}

/// Where a computation stands.
#[derive(Clone, Debug, PartialEq, Eq)]
pub enum Computation {
    /// Waiting for the store's answer to a read.
    Looking { key: String, request: ComputePointRequest },
    /// Waiting for the decoded point.
    Decoding { key: String, iterations: u32 },
    /// Waiting for the outcome of an iteration.
    Iterating { key: String, c: SerComplex, progress: Evaluation },
    /// Waiting for the text of the final iterate.
    Encoding { key: String, c: SerComplex, progress: Evaluation },
    /// Waiting for the store's answer to a write.
    Storing { result: ComputePointResult },
    /// Over.
    Done,
}

/// A copy of a number.
fn copy_float(f: &SerFloat) -> (copy: SerFloat)
    ensures
        copy == *f,
{
    SerFloat { value: f.value.clone(), prec: f.prec }
}

/// A copy of a point.
fn copy_complex(c: &SerComplex) -> (copy: SerComplex)
    ensures
        copy == *c,
{
    SerComplex { real: copy_float(&c.real), imag: copy_float(&c.imag) }
}

/// A copy of a result.
fn copy_result(r: &ComputePointResult) -> (copy: ComputePointResult)
    ensures
        copy == *r,
{
    ComputePointResult {
        c: copy_complex(&r.c),
        escape_iteration: r.escape_iteration,
        computed_iterations: r.computed_iterations,
        final_value: copy_complex(&r.final_value),
    }
}

/// The state and the action that follow `state` on `event`.
pub open spec fn spec_advance(state: Computation, event: Event) -> (Computation, Action) {
    match (state, event) {
        (Computation::Looking { key, request }, Event::Lookup(lookup)) => match lookup {
            StoreLookup::Hit(result) => (Computation::Done, Action::Return(result)),
            _ => if request.c.real.prec == 0 || request.c.imag.prec == 0 {
                (Computation::Done, Action::Fail(NumericError::UnsupportedPrecision))
            } else {
                (
                    Computation::Decoding { key, iterations: request.iterations },
                    Action::Decode(request.c),
                )
            },
        },
        (Computation::Decoding { key, iterations }, Event::Decoded(decoded)) => match decoded {
            Err(e) => (Computation::Done, Action::Fail(e)),
            Ok(c) => {
                let progress = Evaluation::spec_start(iterations);
                if progress.spec_directive() == Directive::Step {
                    (Computation::Iterating { key, c, progress }, Action::Step)
                } else {
                    let result = progress.spec_finish(c, c);
                    (Computation::Storing { result }, Action::Put(key, result))
                }
            },
        },
        (Computation::Iterating { key, c, progress }, Event::Stepped(exceeded)) => {
            let next = progress.spec_observe(exceeded);
            if next.spec_directive() == Directive::Step {
                (Computation::Iterating { key, c, progress: next }, Action::Step)
            } else {
                (Computation::Encoding { key, c, progress: next }, Action::Encode)
            }
        },
        (Computation::Encoding { key, c, progress }, Event::Encoded(z)) => {
            let result = progress.spec_finish(c, z);
            (Computation::Storing { result }, Action::Put(key, result))
        },
        (Computation::Storing { result }, Event::Stored(_)) => (
            Computation::Done,
            Action::Return(result),
        ),
        (state, _) => (state, Action::Rejected),
    }
}

/// What the outside answers in the course of one computation.
pub struct Answers {
    /// The store's answer to the read.
    pub lookup: StoreLookup,
    /// The decoded point, or why there is none.
    pub decoded: Result<SerComplex, NumericError>,
    /// Whether the iterate after iteration `i` is beyond the bailout.
    pub flags: Seq<bool>,
    /// The iterate after iteration `i`, as decimal text.
    pub iterates: Seq<SerComplex>,
    /// Whether the write to the store succeeds.
    pub stored: bool,
}

/// How a computation went: the action that ended it, and what it wrote to the store.
pub struct Course {
    pub ended: Action,
    pub written: Option<(Seq<char>, ComputePointResult)>,
}

/// The event with which the outside answers what `state` waits for.
pub open spec fn answer(state: Computation, answers: Answers) -> Event {
    match state {
        Computation::Looking { .. } => Event::Lookup(answers.lookup),
        Computation::Decoding { .. } => Event::Decoded(answers.decoded),
        Computation::Iterating { progress, .. } => Event::Stepped(
            answers.flags[progress.computed_iterations as int],
        ),
        Computation::Encoding { progress, .. } => Event::Encoded(
            answers.iterates[progress.computed_iterations - 1],
        ),
        Computation::Storing { .. } => Event::Stored(answers.stored),
        Computation::Done => Event::Stored(answers.stored),
    }
}

/// The course that a computation takes from `state` when each action is answered
/// from `answers`, for at most `fuel` events; `written` is what was written before.
pub open spec fn drive(
    state: Computation,
    answers: Answers,
    written: Option<(Seq<char>, ComputePointResult)>,
    fuel: nat,
) -> Course
    decreases fuel,
{
    if fuel == 0 {
        Course { ended: Action::Rejected, written }
    } else {
        let (next, action) = spec_advance(state, answer(state, answers));
        match action {
            Action::Return(_) | Action::Fail(_) | Action::Rejected => Course {
                ended: action,
                written,
            },
            Action::Put(key, result) => drive(
                next,
                answers,
                Some((key@, result)),
                (fuel - 1) as nat,
            ),
            _ => drive(next, answers, written, (fuel - 1) as nat),
        }
    }
}

/// The result of following the orbit of the decoded point `c`.
pub open spec fn evaluated(c: SerComplex, iterations: u32, answers: Answers) -> ComputePointResult {
    let done = Evaluation::spec_start(iterations).spec_run(answers.flags);
    done.spec_finish(
        c,
        if done.computed_iterations == 0 {
            c
        } else {
            answers.iterates[done.computed_iterations - 1]
        },
    )
}

/// The course that the computation of `request` under `key` is to take.
pub open spec fn outcome(key: Seq<char>, request: ComputePointRequest, answers: Answers) -> Course {
    match answers.lookup {
        StoreLookup::Hit(result) => Course { ended: Action::Return(result), written: None },
        _ => if request.c.real.prec == 0 || request.c.imag.prec == 0 {
            Course { ended: Action::Fail(NumericError::UnsupportedPrecision), written: None }
        } else {
            match answers.decoded {
                Err(e) => Course { ended: Action::Fail(e), written: None },
                Ok(c) => {
                    let result = evaluated(c, request.iterations, answers);
                    Course { ended: Action::Return(result), written: Some((key, result)) }
                },
            }
        },
    }
}

/// The store as a map from keys to results, after the write of `course`.
pub open spec fn store_after(
    store: Map<Seq<char>, ComputePointResult>,
    course: Course,
) -> Map<Seq<char>, ComputePointResult> {
    match course.written {
        Some((key, result)) => store.insert(key, result),
        None => store,
    }
}

/// What a store that works answers to a read under `key`.
pub open spec fn lookup_in(store: Map<Seq<char>, ComputePointResult>, key: Seq<char>) -> StoreLookup {
    if store.contains_key(key) {
        StoreLookup::Hit(store[key])
    } else {
        StoreLookup::Miss
    }
}

/// The course from a state that waits for the outcome of an iteration.
proof fn lemma_drive_iterating(
    key: String,
    c: SerComplex,
    progress: Evaluation,
    answers: Answers,
    fuel: nat,
)
    requires
        progress.wf(),
        progress.spec_directive() == Directive::Step,
        answers.flags.len() >= progress.iterations,
        answers.iterates.len() >= progress.iterations,
        fuel >= progress.iterations - progress.computed_iterations + 2,
    ensures
        ({
            let from = progress.computed_iterations as int;
            let done = progress.spec_run(answers.flags.subrange(from, answers.flags.len() as int));
            let result = done.spec_finish(c, answers.iterates[done.computed_iterations - 1]);
            &&& done.computed_iterations > 0
            &&& drive(Computation::Iterating { key, c, progress }, answers, None, fuel) == Course {
                ended: Action::Return(result),
                written: Some((key@, result)),
            }
        }),
    decreases progress.iterations - progress.computed_iterations,
{
    let from = progress.computed_iterations as int;
    let rest = answers.flags.subrange(from, answers.flags.len() as int);
    assert(rest[0] == answers.flags[from]);
    assert(rest.drop_first() =~= answers.flags.subrange(from + 1, answers.flags.len() as int));
    let state = Computation::Iterating { key, c, progress };
    let next = progress.spec_observe(answers.flags[from]);
    assert(answer(state, answers) == Event::Stepped(answers.flags[from]));
    assert(progress.spec_run(rest) == next.spec_run(rest.drop_first()));
    if next.spec_directive() == Directive::Step {
        lemma_drive_iterating(key, c, next, answers, (fuel - 1) as nat);
    } else {
        lemma_run_idle(next, rest.drop_first());
        let encoding = Computation::Encoding { key, c, progress: next };
        let z = answers.iterates[next.computed_iterations - 1];
        let result = next.spec_finish(c, z);
        let storing = Computation::Storing { result };
        assert(spec_advance(state, answer(state, answers)) == (encoding, Action::Encode));
        assert(spec_advance(encoding, answer(encoding, answers)) == (
            storing,
            Action::Put(key, result),
        ));
        assert(spec_advance(storing, answer(storing, answers)) == (
            Computation::Done,
            Action::Return(result),
        ));
        assert(drive(storing, answers, Some((key@, result)), (fuel - 2) as nat) == Course {
            ended: Action::Return(result),
            written: Some((key@, result)),
        });
        assert(drive(encoding, answers, None, (fuel - 1) as nat) == drive(
            storing,
            answers,
            Some((key@, result)),
            (fuel - 2) as nat,
        ));
    }
}

/// A computation that is driven to its end takes the course laid down for it: what
/// it returns and what it writes depend on the request and on the outside's answers
/// alone. A result that the store holds is returned as it is and nothing is written;
/// otherwise the result of the evaluation is written under the key and returned,
/// whether the store held nothing or could not be read, and whether or not the
/// write succeeds.
pub proof fn lemma_course_is_outcome(
    key: String,
    request: ComputePointRequest,
    answers: Answers,
    fuel: nat,
)
    requires
        answers.flags.len() >= request.iterations,
        answers.iterates.len() >= request.iterations,
        fuel >= request.iterations + 4,
    ensures
        drive(Computation::Looking { key, request }, answers, None, fuel) == outcome(
            key@,
            request,
            answers,
        ),
{
    let looking = Computation::Looking { key, request };
    assert(answer(looking, answers) == Event::Lookup(answers.lookup));
    match answers.lookup {
        StoreLookup::Hit(result) => {},
        _ => {
            if request.c.real.prec == 0 || request.c.imag.prec == 0 {
            } else {
                let decoding = Computation::Decoding { key, iterations: request.iterations };
                assert(spec_advance(looking, answer(looking, answers)) == (
                    decoding,
                    Action::Decode(request.c),
                ));
                assert(answer(decoding, answers) == Event::Decoded(answers.decoded));
                match answers.decoded {
                    Err(e) => {
                        assert(drive(decoding, answers, None, (fuel - 1) as nat) == Course {
                            ended: Action::Fail(e),
                            written: None,
                        });
                    },
                    Ok(c) => {
                        let progress = Evaluation::spec_start(request.iterations);
                        assert(answers.flags.subrange(0, answers.flags.len() as int)
                            =~= answers.flags);
                        if progress.spec_directive() == Directive::Step {
                            let iterating = Computation::Iterating { key, c, progress };
                            lemma_drive_iterating(key, c, progress, answers, (fuel - 2) as nat);
                            assert(drive(decoding, answers, None, (fuel - 1) as nat) == drive(
                                iterating,
                                answers,
                                None,
                                (fuel - 2) as nat,
                            ));
                        } else {
                            lemma_run_idle(progress, answers.flags);
                            let result = progress.spec_finish(c, c);
                            let storing = Computation::Storing { result };
                            assert(spec_advance(decoding, answer(decoding, answers)) == (
                                storing,
                                Action::Put(key, result),
                            ));
                            assert(spec_advance(storing, answer(storing, answers)) == (
                                Computation::Done,
                                Action::Return(result),
                            ));
                            assert(drive(storing, answers, Some((key@, result)), (fuel - 2) as nat)
                                == Course {
                                ended: Action::Return(result),
                                written: Some((key@, result)),
                            });
                            assert(drive(decoding, answers, None, (fuel - 1) as nat) == drive(
                                storing,
                                answers,
                                Some((key@, result)),
                                (fuel - 2) as nat,
                            ));
                        }
                    },
                }
            }
        },
    }
}

/// A computation that returns a result leaves the store so that the same request,
/// computed again at once, is served from the store: the second computation returns
/// the same result after a single event, without decoding, iterating or writing.
pub proof fn lemma_second_computation_is_served(
    store: Map<Seq<char>, ComputePointResult>,
    key: String,
    request: ComputePointRequest,
    first: Answers,
    second: Answers,
    result: ComputePointResult,
)
    requires
        first.lookup == lookup_in(store, key@),
        outcome(key@, request, first).ended == Action::Return(result),
        second.lookup == lookup_in(store_after(store, outcome(key@, request, first)), key@),
    ensures
        drive(Computation::Looking { key, request }, second, None, 1) == (Course {
            ended: Action::Return(result),
            written: None,
        }),
{
    let looking = Computation::Looking { key, request };
    assert(answer(looking, second) == Event::Lookup(second.lookup));
    assert(second.lookup == StoreLookup::Hit(result));
}

/// The result of an evaluation follows the escape-time rule: its counters are the
/// outcome of the rule on the outside's answers, its point is the decoded point,
/// and its final value is the iterate after the last iteration that was run, or
/// the point itself where none was run.
pub proof fn lemma_evaluated_follows_rule(c: SerComplex, iterations: u32, answers: Answers)
    requires
        answers.flags.len() >= iterations,
    ensures
        ({
            let result = evaluated(c, iterations, answers);
            let counters = Evaluation {
                iterations,
                computed_iterations: result.computed_iterations,
                escape_iteration: result.escape_iteration,
            };
            &&& is_outcome(counters, iterations, answers.flags)
            &&& result.c == c
            &&& result.final_value == if result.computed_iterations == 0 {
                c
            } else {
                answers.iterates[result.computed_iterations - 1]
            }
        }),
{
    lemma_run_ends_at_first_escape(iterations, answers.flags);
}

/// With a budget of zero iterations, a computation that the store does not serve
/// returns the decoded point as the final iterate, with no iteration run and no
/// escape recorded.
pub proof fn lemma_zero_iterations(key: Seq<char>, request: ComputePointRequest, answers: Answers)
    requires
        request.iterations == 0,
        outcome(key, request, answers).written.is_some(),
    ensures
        (outcome(key, request, answers).ended matches Action::Return(result)
            && result.computed_iterations == 0 && result.escape_iteration.is_none()
            && result.final_value == result.c && answers.decoded == Ok::<
            SerComplex,
            NumericError,
        >(result.c)),
{
    lemma_run_idle(Evaluation::spec_start(0), answers.flags);
}

impl Computation {
    /// Starts the computation of `request`: derives its key and asks for a read of
    /// the store under it.
    pub fn begin(config: &S3Config, request: ComputePointRequest) -> (started: (
        Computation,
        Action,
    ))
        ensures
            started.0 matches Computation::Looking { key, request: r } && r == request && key@
                == cache_key(config.prefix@, request),
            started.1 matches Action::Get(key) && key@ == cache_key(config.prefix@, request),
    {
        let key = derive_key(config, &request);
        let asked = key.clone();
        (Computation::Looking { key, request }, Action::Get(asked))
    }

    /// Takes the driver's answer and says what to do next.
    ///
    /// A result that the store holds is returned as it is, and nothing is decoded,
    /// iterated or written. Otherwise, whether the store held nothing or could not
    /// be read, the point is decoded (a precision of zero bits is refused before
    /// that), iterated as long as its evaluation asks for steps, and the result is
    /// written to the store and returned, whether or not the write succeeded. With
    /// a budget of zero iterations the final iterate is the point itself.
    pub fn advance(self, event: Event) -> (next: (Computation, Action))
        ensures
            next == spec_advance(self, event),
    {
        match (self, event) {
            (Computation::Looking { key, request }, Event::Lookup(lookup)) => match lookup {
                StoreLookup::Hit(result) => (Computation::Done, Action::Return(result)),
                _ => if request.c.real.prec == 0 || request.c.imag.prec == 0 {
                    (Computation::Done, Action::Fail(NumericError::UnsupportedPrecision))
                } else {
                    (
                        Computation::Decoding { key, iterations: request.iterations },
                        Action::Decode(request.c),
                    )
                },
            },
            (Computation::Decoding { key, iterations }, Event::Decoded(decoded)) => match decoded {
                Err(e) => (Computation::Done, Action::Fail(e)),
                Ok(c) => {
                    let progress = Evaluation::start(iterations);
                    match progress.directive() {
                        Directive::Step => (
                            Computation::Iterating { key, c, progress },
                            Action::Step,
                        ),
                        Directive::Finish => {
                            let z = copy_complex(&c);
                            let result = progress.finish(c, z);
                            let kept = copy_result(&result);
                            (Computation::Storing { result }, Action::Put(key, kept))
                        },
                    }
                },
            },
            (Computation::Iterating { key, c, progress }, Event::Stepped(exceeded)) => {
                let mut progress = progress;
                progress.observe(exceeded);
                match progress.directive() {
                    Directive::Step => (Computation::Iterating { key, c, progress }, Action::Step),
                    Directive::Finish => (
                        Computation::Encoding { key, c, progress },
                        Action::Encode,
                    ),
                }
            },
            (Computation::Encoding { key, c, progress }, Event::Encoded(z)) => {
                let result = progress.finish(c, z);
                let kept = copy_result(&result);
                (Computation::Storing { result }, Action::Put(key, kept))
            },
            (Computation::Storing { result }, Event::Stored(_)) => (
                Computation::Done,
                Action::Return(result),
            ),
            (state, _) => (state, Action::Rejected),
        }
    }
}

} // verus!
