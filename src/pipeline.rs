//! The decisions of a run: the order of its steps, which per-type document
//! to start writing next, with at most `MAX_IN_FLIGHT` writes in flight, and
//! when the run is over.
use vstd::prelude::*;
use crate::error::Error;

verus! {

/// The steps of a run, in the order they are taken.
#[derive(Debug, Clone, Copy, PartialEq, Eq, Structural)]
pub enum Step {
    /// Read and check the arguments
    Arguments,
    /// Get today's date and read it as a calendar date
    Date,
    /// Query the endpoint, or read the schema file, and decode the schema
    Schema,
    /// Prepare the output directory
    OutputDirectory,
    /// Render and write the index document
    Index,
    /// Write the stylesheet
    Stylesheet,
    /// Render and write the per-type documents
    Types,
}

/// Where a run stands: at a step, or finished with its result.
#[derive(Debug, PartialEq, Eq)]
pub enum RunState {
    At(Step),
    Finished(Result<(), Error>),
}

/// The step after `s`; none after the last.
pub open spec fn next_step(s: Step) -> Option<Step> {
    match s {
        Step::Arguments => Some(Step::Date),
        Step::Date => Some(Step::Schema),
        Step::Schema => Some(Step::OutputDirectory),
        Step::OutputDirectory => Some(Step::Index),
        Step::Index => Some(Step::Stylesheet),
        Step::Stylesheet => Some(Step::Types),
        Step::Types => None,
    }
}

/// The state after the current step ends with `result`: a failure ends the
/// run with it; a success moves to the next step, or ends the run after the
/// last one.
pub open spec fn after_step(state: RunState, result: Result<(), Error>) -> RunState {
    match state {
        RunState::At(s) => match result {
            Err(e) => RunState::Finished(Err(e)),
            Ok(()) => match next_step(s) {
                Some(n) => RunState::At(n),
                None => RunState::Finished(Ok(())),
            },
        },
        RunState::Finished(r) => RunState::Finished(r),
    }
}

/// The state after the steps from the first one end with `results`.
pub open spec fn after_steps(results: Seq<Result<(), Error>>) -> RunState
    decreases results.len(),
{
    if results.len() == 0 {
        RunState::At(Step::Arguments)
    } else {
        after_step(after_steps(results.drop_last()), results.last())
    }
}

impl RunState {
    /// A run starts with its arguments.
    pub fn start() -> (r: RunState)
        ensures
            r == after_steps(Seq::empty()),
    {
        RunState::At(Step::Arguments)
    }

    /// Moves past the current step, which ended with `result`.
    pub fn advance(self, result: Result<(), Error>) -> (r: RunState)
        ensures
            r == after_step(self, result),
    {
        match self {
            RunState::At(s) => match result {
                Err(e) => RunState::Finished(Err(e)),
                Ok(()) => match s {
                    Step::Arguments => RunState::At(Step::Date),
                    Step::Date => RunState::At(Step::Schema),
                    Step::Schema => RunState::At(Step::OutputDirectory),
                    Step::OutputDirectory => RunState::At(Step::Index),
                    Step::Index => RunState::At(Step::Stylesheet),
                    Step::Stylesheet => RunState::At(Step::Types),
                    Step::Types => RunState::Finished(Ok(())),
                },
            },
            RunState::Finished(r) => RunState::Finished(r),
        }
    }
}

/// The position of a step in the order of a run.
pub open spec fn step_index(s: Step) -> nat {
    match s {
        Step::Arguments => 0,
        Step::Date => 1,
        Step::Schema => 2,
        Step::OutputDirectory => 3,
        Step::Index => 4,
        Step::Stylesheet => 5,
        Step::Types => 6,
    }
}

/// A run is at a step exactly when every step before it succeeded, one
/// result each, in order; so the per-type documents are begun only after the
/// index and the stylesheet were written.
pub proof fn lemma_steps_in_order(results: Seq<Result<(), Error>>, s: Step)
    requires
        after_steps(results) == RunState::At(s),
    ensures
        results.len() == step_index(s),
        forall|i: int| 0 <= i < results.len() ==> #[trigger] results[i] is Ok,
    decreases results.len(),
{
    if results.len() > 0 {
        let prev = after_steps(results.drop_last());
        if let RunState::At(p) = prev {
            lemma_steps_in_order(results.drop_last(), p);
            assert forall|i: int| 0 <= i < results.len() implies #[trigger] results[i] is Ok by {
                if i < results.len() - 1 {
                    assert(results.drop_last()[i] is Ok);
                }
            }
        }
    }
}

/// A step that fails while the run is under way ends the run with that
/// failure; nothing after it changes that.
pub proof fn lemma_failed_step_ends_run(results: Seq<Result<(), Error>>, i: int)
    requires
        0 <= i < results.len(),
        results[i] is Err,
        after_steps(results.take(i)) is At,
    ensures
        after_steps(results) == RunState::Finished(results[i]),
    decreases results.len(),
{
    if i < results.len() - 1 {
        assert(results.drop_last().take(i) =~= results.take(i));
        lemma_failed_step_ends_run(results.drop_last(), i);
    } else {
        assert(results.drop_last() =~= results.take(i));
    }
}

/// At most this many documents are written at the same time.
pub const MAX_IN_FLIGHT: usize = 10;

/// The state of a batch of writes: how many there are, how many have been
/// started and finished, and the first failure seen.
pub struct BatchState {
    pub total: nat,
    pub started: nat,
    pub finished: nat,
    pub failure: Option<Error>,
}

/// The state after one started write completes with `result`: the first
/// failure is kept.
pub open spec fn completed(s: BatchState, result: Result<(), Error>) -> BatchState {
    BatchState {
        finished: s.finished + 1,
        failure: match (s.failure, result) {
            (None, Err(e)) => Some(e),
            _ => s.failure,
        },
        ..s
    }
}

/// The state after completions with the given results, in order.
pub open spec fn completed_all(s: BatchState, results: Seq<Result<(), Error>>) -> BatchState
    decreases results.len(),
{
    if results.len() == 0 {
        s
    } else {
        completed(completed_all(s, results.drop_last()), results.last())
    }
}

/// How the run ends: with the first failure as soon as there is one; with
/// success once every write finished; undecided before.
pub open spec fn outcome_of(s: BatchState) -> Option<Result<(), Error>> {
    match s.failure {
        Some(e) => Some(Err(e)),
        None => if s.finished == s.total {
            Some(Ok(()))
        } else {
            None
        },
    }
}

/// Drives the writing of the per-type documents.
pub struct WriteBatch {
    total: usize,
    started: usize,
    finished: usize,
    failure: Option<Error>,
}

impl View for WriteBatch {
    type V = BatchState;

    closed spec fn view(&self) -> BatchState {
        BatchState {
            total: self.total as nat,
            started: self.started as nat,
            finished: self.finished as nat,
            failure: self.failure,
        }
    }
}

impl WriteBatch {
    /// Counts stay ordered and within the bound on writes in flight.
    pub open spec fn wf(&self) -> bool {
        &&& self@.finished <= self@.started <= self@.total
        &&& self@.started - self@.finished <= MAX_IN_FLIGHT
    }

    /// A batch of `total` writes, none started.
    pub fn new(total: usize) -> (r: Self)
        ensures
            r.wf(),
            r@ == (BatchState { total: total as nat, started: 0, finished: 0, failure: None }),
    {
        WriteBatch { total, started: 0, finished: 0, failure: None }
    }

    /// The index of the next write to start, if one may start now: none
    /// after a failure, none once all are started, and none while
    /// `MAX_IN_FLIGHT` are in flight.
    pub fn next_task(&mut self) -> (r: Option<usize>)
        requires
            old(self).wf(),
        ensures
            final(self).wf(),
            ({
                let s = old(self)@;
                if s.failure is None && s.started < s.total && s.started - s.finished
                    < MAX_IN_FLIGHT {
                    r == Some(s.started as usize) && final(self)@ == (BatchState {
                        started: s.started + 1,
                        ..s
                    })
                } else {
                    r is None && final(self)@ == s
                }
            }),
    {
        if self.failure.is_none() && self.started < self.total && self.started - self.finished
            < MAX_IN_FLIGHT {
            let i = self.started;
            self.started = self.started + 1;
            Some(i)
        } else {
            None
        }
    }

    /// Records that a started write completed with `result`.
    pub fn complete(&mut self, result: Result<(), Error>)
        requires
            old(self).wf(),
            old(self)@.finished < old(self)@.started,
        ensures
            final(self).wf(),
            final(self)@ == completed(old(self)@, result),
    {
        self.finished = self.finished + 1;
        if self.failure.is_none() {
            if let Err(e) = result {
                self.failure = Some(e);
            }
        }
    }

    /// The number of writes started and not finished.
    pub fn in_flight(&self) -> (r: usize)
        requires
            self.wf(),
        ensures
            r == self@.started - self@.finished,
    {
        self.started - self.finished
    }

    /// How the run ends, if that is decided.
    pub fn outcome(&self) -> (r: Option<Result<(), Error>>)
        ensures
            r == outcome_of(self@),
    {
        match &self.failure {
            Some(e) => Some(Err(e.duplicate())),
            None => if self.finished == self.total {
                Some(Ok(()))
            } else {
                None
            },
        }
    }
}

/// Fail fast: once any write has failed, the run ends in failure, however
/// many of the other writes completed, and before or after it.
pub proof fn lemma_one_failure_fails_run(s: BatchState, results: Seq<Result<(), Error>>, i: int)
    requires
        0 <= i < results.len(),
        results[i] is Err,
    ensures
        outcome_of(completed_all(s, results)) matches Some(Err(_)),
    decreases results.len(),
{
    if i < results.len() - 1 {
        lemma_one_failure_fails_run(s, results.drop_last(), i);
    }
}

} // verus!
