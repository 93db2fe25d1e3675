//! Cancelling runs of a Kun runtime: what is known of each run, and who interrupts
//! its turn.
//!
//! A run has at most one turn at the runtime. A cancellation that comes before the
//! turn exists keeps it from being started; one that comes later interrupts the
//! turn once, and every one who asks gets the outcome of that one interrupt.

use vstd::prelude::*;

use crate::error;
use crate::error::RuntimeError;
use crate::textmap::TextMap;

verus! {

/// How far the cancellation of a run has come.
#[derive(Debug)]
pub enum KunCancellationState {
    /// It was asked for before the turn existed.
    PendingSetup,
    /// The turn is being interrupted.
    InterruptInFlight,
    /// The runtime has accepted the interrupt.
    RemoteInterruptAccepted,
    /// The runtime has not.
    Failed(RuntimeError),
}

pub enum CancelView {
    PendingSetup,
    InterruptInFlight,
    RemoteInterruptAccepted,
    Failed(error::ErrorView),
}

impl View for KunCancellationState {
    type V = CancelView;

    open spec fn view(&self) -> CancelView {
        match self {
            KunCancellationState::PendingSetup => CancelView::PendingSetup,
            KunCancellationState::InterruptInFlight => CancelView::InterruptInFlight,
            KunCancellationState::RemoteInterruptAccepted => CancelView::RemoteInterruptAccepted,
            KunCancellationState::Failed(e) => CancelView::Failed(e@),
        }
    }
}

/// A turn that runs at the runtime.
#[derive(Debug)]
pub struct KunTurn {
    pub thread_id: String,
    pub turn_id: String,
}

#[verifier::ext_equal]
pub struct TurnView {
    pub thread_id: Seq<char>,
    pub turn_id: Seq<char>,
}

impl View for KunTurn {
    type V = TurnView;

    open spec fn view(&self) -> TurnView {
        TurnView { thread_id: self.thread_id@, turn_id: self.turn_id@ }
    }
}

impl Clone for KunTurn {
    fn clone(&self) -> (r: Self)
        ensures
            r@ == self@,
    {
        KunTurn { thread_id: self.thread_id.clone(), turn_id: self.turn_id.clone() }
    }
}

/// What is known of one run.
#[verifier::ext_equal]
pub struct RunFacts {
    pub turn: Option<TurnView>,
    pub starting: bool,
    pub cancellation: Option<CancelView>,
}

/// What is known of all runs.
pub type Facts = spec_fn(Seq<char>) -> RunFacts;

pub open spec fn no_facts() -> RunFacts {
    RunFacts { turn: None, starting: false, cancellation: None }
}

/// The facts with those of one run replaced.
pub open spec fn with_run(facts: Facts, run: Seq<char>, new: RunFacts) -> Facts {
    |r: Seq<char>|
        if r == run {
            new
        } else {
            facts(r)
        }
}

/// What one who wants a turn interrupted is to do.
#[derive(Debug)]
pub enum InterruptStep {
    /// Interrupt the turn and report the outcome.
    Invoke,
    /// Wait for the outcome of another one.
    Wait,
    /// The outcome is there.
    Outcome(Result<(), RuntimeError>),
}

pub enum InterruptStepView {
    Invoke,
    Wait,
    Outcome(Result<(), error::ErrorView>),
}

pub open spec fn result_view(r: Result<(), RuntimeError>) -> Result<(), error::ErrorView> {
    match r {
        Ok(_) => Ok(()),
        Err(e) => Err(e@),
    }
}

impl View for InterruptStep {
    type V = InterruptStepView;

    open spec fn view(&self) -> InterruptStepView {
        match self {
            InterruptStep::Invoke => InterruptStepView::Invoke,
            InterruptStep::Wait => InterruptStepView::Wait,
            InterruptStep::Outcome(r) => InterruptStepView::Outcome(result_view(*r)),
        }
    }
}

/// What one who wants a run cancelled is to do.
#[derive(Debug)]
pub enum CancelStep {
    /// Interrupt this turn.
    Interrupt(KunTurn),
    /// There is no turn, and none is being started: the run is cancelled.
    BeforeTurn,
    /// A turn is being started: ask again.
    Wait,
    /// The outcome is there.
    Outcome(Result<(), RuntimeError>),
}

pub enum CancelStepView {
    Interrupt(TurnView),
    BeforeTurn,
    Wait,
    Outcome(Result<(), error::ErrorView>),
}

impl View for CancelStep {
    type V = CancelStepView;

    open spec fn view(&self) -> CancelStepView {
        match self {
            CancelStep::Interrupt(turn) => CancelStepView::Interrupt(turn@),
            CancelStep::BeforeTurn => CancelStepView::BeforeTurn,
            CancelStep::Wait => CancelStepView::Wait,
            CancelStep::Outcome(r) => CancelStepView::Outcome(result_view(*r)),
        }
    }
}

/// What the worker of a run is to do before it starts the turn.
#[derive(Debug)]
pub enum BeforeTurnStart {
    Start,
    Cancelled,
    Failed(RuntimeError),
}

pub enum BeforeTurnView {
    Start,
    Cancelled,
    Failed(error::ErrorView),
}

impl View for BeforeTurnStart {
    type V = BeforeTurnView;

    open spec fn view(&self) -> BeforeTurnView {
        match self {
            BeforeTurnStart::Start => BeforeTurnView::Start,
            BeforeTurnStart::Cancelled => BeforeTurnView::Cancelled,
            BeforeTurnStart::Failed(e) => BeforeTurnView::Failed(e@),
        }
    }
}

impl RunFacts {
    /// The outcome of the interrupt, once there is one.
    pub open spec fn outcome(self) -> Option<Result<(), error::ErrorView>> {
        match self.cancellation {
            Some(CancelView::RemoteInterruptAccepted) => Some(Ok(())),
            Some(CancelView::Failed(e)) => Some(Err(e)),
            _ => None,
        }
    }

    /// Whether a cancellation was asked for and has not failed.
    pub open spec fn requested(self) -> bool {
        self.cancellation is Some && !(self.cancellation->0 is Failed)
    }

    /// The error of a cancellation that has failed.
    pub open spec fn failure(self) -> Option<error::ErrorView> {
        match self.cancellation {
            Some(CancelView::Failed(e)) => Some(e),
            _ => None,
        }
    }

    pub open spec fn poll_interrupt(self) -> (RunFacts, InterruptStepView) {
        match self.outcome() {
            Some(r) => (self, InterruptStepView::Outcome(r)),
            None => if self.cancellation == Some(CancelView::InterruptInFlight) {
                (self, InterruptStepView::Wait)
            } else {
                (
                    RunFacts { cancellation: Some(CancelView::InterruptInFlight), ..self },
                    InterruptStepView::Invoke,
                )
            },
        }
    }

    pub open spec fn interrupted(self, result: Result<(), error::ErrorView>) -> RunFacts {
        RunFacts {
            cancellation: Some(
                match result {
                    Ok(_) => CancelView::RemoteInterruptAccepted,
                    Err(e) => CancelView::Failed(e),
                },
            ),
            ..self
        }
    }

    pub open spec fn poll_cancel(self) -> (RunFacts, CancelStepView) {
        match self.outcome() {
            Some(r) => (self, CancelStepView::Outcome(r)),
            None => match self.turn {
                Some(turn) => (self, CancelStepView::Interrupt(turn)),
                None => (
                    RunFacts {
                        cancellation: match self.cancellation {
                            Some(c) => Some(c),
                            None => Some(CancelView::PendingSetup),
                        },
                        ..self
                    },
                    if self.starting {
                        CancelStepView::Wait
                    } else {
                        CancelStepView::BeforeTurn
                    },
                ),
            },
        }
    }

    /// A run that is over. The outcome of an interrupt stays.
    pub open spec fn cleared(self) -> RunFacts {
        RunFacts {
            turn: None,
            starting: false,
            cancellation: if self.outcome() is Some {
                self.cancellation
            } else {
                None
            },
        }
    }

    pub open spec fn before_turn(self, cancelled: bool) -> (RunFacts, BeforeTurnView) {
        match self.cancellation {
            Some(CancelView::Failed(e)) => (self, BeforeTurnView::Failed(e)),
            Some(_) => (self, BeforeTurnView::Cancelled),
            None => if cancelled {
                (self, BeforeTurnView::Cancelled)
            } else {
                (RunFacts { starting: true, ..self }, BeforeTurnView::Start)
            },
        }
    }

    pub open spec fn started(self, turn: TurnView) -> RunFacts {
        RunFacts { turn: Some(turn), starting: false, ..self }
    }
}

/// What is known of the runs of one runtime.
#[derive(Debug)]
pub struct KunTransportState {
    active_runs: TextMap<KunTurn>,
    turn_starting: TextMap<()>,
    cancellations: TextMap<KunCancellationState>,
}

impl KunTransportState {
    /// What is known of a run.
    pub closed spec fn facts(&self, run: Seq<char>) -> RunFacts {
        RunFacts {
            turn: if self.active_runs@.dom().contains(run) {
                Some(self.active_runs@[run]@)
            } else {
                None
            },
            starting: self.turn_starting@.dom().contains(run),
            cancellation: if self.cancellations@.dom().contains(run) {
                Some(self.cancellations@[run]@)
            } else {
                None
            },
        }
    }

    /// What is known of all runs.
    pub open spec fn view(&self) -> Facts {
        |run: Seq<char>| self.facts(run)
    }

    pub fn new() -> (r: Self)
        ensures
            forall|run: Seq<char>| #[trigger] r.facts(run) == no_facts(),
    {
        KunTransportState {
            active_runs: TextMap::new(),
            turn_starting: TextMap::new(),
            cancellations: TextMap::new(),
        }
    }

    /// Asks what to do about the turn of a run that is to be interrupted.
    pub fn poll_interrupt(&mut self, run: &str) -> (r: InterruptStep)
        ensures
            (final(self).facts(run@), r@) == old(self).facts(run@).poll_interrupt(),
            final(self)@ == with_run(old(self)@, run@, final(self).facts(run@)),
    {
        let ghost before = *self;
        let step = match self.cancellations.get(run) {
            Some(KunCancellationState::RemoteInterruptAccepted) => InterruptStep::Outcome(Ok(())),
            Some(KunCancellationState::Failed(e)) => InterruptStep::Outcome(Err(e.clone())),
            Some(KunCancellationState::InterruptInFlight) => InterruptStep::Wait,
            Some(KunCancellationState::PendingSetup) => InterruptStep::Invoke,
            None => InterruptStep::Invoke,
        };
        if let InterruptStep::Invoke = step {
            self.cancellations.insert(run.to_owned(), KunCancellationState::InterruptInFlight);
        }
        proof {
            self.lemma_frame(&before, run@);
        }
        step
    }

    /// Takes the outcome of an interrupt.
    pub fn interrupt_done(&mut self, run: &str, result: &Result<(), RuntimeError>)
        ensures
            final(self).facts(run@) == old(self).facts(run@).interrupted(result_view(*result)),
            final(self)@ == with_run(old(self)@, run@, final(self).facts(run@)),
    {
        let ghost before = *self;
        let state = match result {
            Ok(_) => KunCancellationState::RemoteInterruptAccepted,
            Err(e) => KunCancellationState::Failed(e.clone()),
        };
        self.cancellations.insert(run.to_owned(), state);
        proof {
            self.lemma_frame(&before, run@);
        }
    }

    /// Asks what to do about a run that is to be cancelled.
    pub fn poll_cancel(&mut self, run: &str) -> (r: CancelStep)
        ensures
            (final(self).facts(run@), r@) == old(self).facts(run@).poll_cancel(),
            final(self)@ == with_run(old(self)@, run@, final(self).facts(run@)),
    {
        let ghost before = *self;
        let known = match self.cancellations.get(run) {
            Some(KunCancellationState::RemoteInterruptAccepted) => {
                proof {
                    self.lemma_frame(&before, run@);
                }
                return CancelStep::Outcome(Ok(()));
            },
            Some(KunCancellationState::Failed(e)) => {
                proof {
                    self.lemma_frame(&before, run@);
                }
                return CancelStep::Outcome(Err(e.clone()));
            },
            Some(_) => true,
            None => false,
        };
        if let Some(turn) = self.active_runs.get(run) {
            proof {
                self.lemma_frame(&before, run@);
            }
            return CancelStep::Interrupt(turn.clone());
        }
        let starting = self.turn_starting.contains(run);
        if !known {
            self.cancellations.insert(run.to_owned(), KunCancellationState::PendingSetup);
        }
        proof {
            self.lemma_frame(&before, run@);
        }
        if starting {
            CancelStep::Wait
        } else {
            CancelStep::BeforeTurn
        }
    }

    /// Drops what is known of a run that is over. The outcome of an interrupt
    /// stays.
    pub fn clear_run_state(&mut self, run: &str)
        ensures
            final(self).facts(run@) == old(self).facts(run@).cleared(),
            final(self)@ == with_run(old(self)@, run@, final(self).facts(run@)),
    {
        let ghost before = *self;
        self.active_runs.remove(run);
        self.turn_starting.remove(run);
        let keep = match self.cancellations.get(run) {
            Some(KunCancellationState::RemoteInterruptAccepted) => true,
            Some(KunCancellationState::Failed(_)) => true,
            _ => false,
        };
        if !keep {
            self.cancellations.remove(run);
        }
        proof {
            self.lemma_frame(&before, run@);
        }
    }

    pub fn cancellation_failure(&self, run: &str) -> (r: Option<RuntimeError>)
        ensures
            match r {
                Some(e) => self.facts(run@).failure() == Some(e@),
                None => self.facts(run@).failure() is None,
            },
    {
        match self.cancellations.get(run) {
            Some(KunCancellationState::Failed(e)) => Some(e.clone()),
            _ => None,
        }
    }

    pub fn cancellation_requested(&self, run: &str) -> (r: bool)
        ensures
            r == self.facts(run@).requested(),
    {
        match self.cancellations.get(run) {
            Some(KunCancellationState::Failed(_)) => false,
            Some(_) => true,
            None => false,
        }
    }

    /// Decides whether the turn of a run is started, and takes note of it.
    pub fn before_turn_start(&mut self, run: &str, cancelled: bool) -> (r: BeforeTurnStart)
        ensures
            (final(self).facts(run@), r@) == old(self).facts(run@).before_turn(cancelled),
            final(self)@ == with_run(old(self)@, run@, final(self).facts(run@)),
    {
        let ghost before = *self;
        let step = match self.cancellations.get(run) {
            Some(KunCancellationState::Failed(e)) => BeforeTurnStart::Failed(e.clone()),
            Some(_) => BeforeTurnStart::Cancelled,
            None => if cancelled {
                BeforeTurnStart::Cancelled
            } else {
                BeforeTurnStart::Start
            },
        };
        if let BeforeTurnStart::Start = step {
            self.turn_starting.insert(run.to_owned(), ());
        }
        proof {
            self.lemma_frame(&before, run@);
        }
        step
    }

    /// Takes note of the turn of a run.
    pub fn turn_started(&mut self, run: &str, turn: KunTurn)
        ensures
            final(self).facts(run@) == old(self).facts(run@).started(turn@),
            final(self)@ == with_run(old(self)@, run@, final(self).facts(run@)),
    {
        let ghost before = *self;
        self.turn_starting.remove(run);
        self.active_runs.insert(run.to_owned(), turn);
        proof {
            self.lemma_frame(&before, run@);
        }
    }

    /// The turn of a run.
    pub fn active_turn(&self, run: &str) -> (r: Option<KunTurn>)
        ensures
            match r {
                Some(turn) => self.facts(run@).turn == Some(turn@),
                None => self.facts(run@).turn is None,
            },
    {
        match self.active_runs.get(run) {
            Some(turn) => Some(turn.clone()),
            None => None,
        }
    }

    /// Forgets all runs, and hands out the turns that ran.
    pub fn shutdown(&mut self) -> (r: Vec<KunTurn>)
        ensures
            forall|run: Seq<char>| #[trigger] final(self).facts(run) == no_facts(),
            exists|runs: Seq<Seq<char>>|
                {
                    &&& runs.no_duplicates()
                    &&& runs.len() == r@.len()
                    &&& forall|run: Seq<char>|
                        (#[trigger] old(self).facts(run)).turn is Some <==> runs.contains(run)
                    &&& forall|i: int|
                        0 <= i < runs.len() ==> old(self).facts(#[trigger] runs[i]).turn == Some(
                            r@[i]@,
                        )
                },
    {
        let ghost before = *self;
        self.turn_starting = TextMap::new();
        self.cancellations = TextMap::new();
        let turns = self.active_runs.drain();
        proof {
            let runs = choose|runs: Seq<Seq<char>>|
                {
                    &&& runs.no_duplicates()
                    &&& runs.len() == turns@.len()
                    &&& forall|k: Seq<char>|
                        #[trigger] before.active_runs@.dom().contains(k) <==> runs.contains(k)
                    &&& forall|i: int|
                        0 <= i < runs.len() ==> turns@[i] == before.active_runs@[
                            #[trigger] runs[i]]
                };
            assert forall|i: int| 0 <= i < runs.len() implies before.facts(
                #[trigger] runs[i],
            ).turn == Some(turns@[i]@) by {
                assert(runs.contains(runs[i]));
                assert(before.active_runs@.dom().contains(runs[i]));
            }
            assert forall|run: Seq<char>| (#[trigger] before.facts(run)).turn is Some
                <==> runs.contains(run) by {
                assert(before.active_runs@.dom().contains(run) <==> runs.contains(run));
            }
        }
        turns
    }

    proof fn lemma_frame(&self, before: &KunTransportState, run: Seq<char>)
        requires
            forall|r: Seq<char>|
                r != run ==> {
                    &&& #[trigger] self.facts(r) == before.facts(r)
                },
        ensures
            self@ == with_run(before@, run, self.facts(run)),
    {
        assert(self@ =~= with_run(before@, run, self.facts(run)));
    }
}

/// The result of interrupting turns one after the other: the first error.
pub open spec fn first_error(results: Seq<Result<(), RuntimeError>>) -> Option<error::ErrorView>
    decreases results.len(),
{
    if results.len() == 0 {
        None
    } else {
        match results[0] {
            Err(e) => Some(e@),
            Ok(_) => first_error(results.drop_first()),
        }
    }
}

/// The result of a shutdown. `timed_out` says that the time was over before all
/// turns had been interrupted.
pub fn shutdown_result(results: &Vec<Result<(), RuntimeError>>, timed_out: bool) -> (r: Result<
    (),
    RuntimeError,
>)
    ensures
        match r {
            Ok(_) => first_error(results@) is None && !timed_out,
            Err(e) => match first_error(results@) {
                Some(x) => e@ == x,
                None => timed_out && e@ == error::ErrorView::Timeout,
            },
        },
{
    let mut i: usize = 0;
    assert(results@.skip(0) =~= results@);
    while i < results.len()
        invariant
            i <= results@.len(),
            first_error(results@) == first_error(results@.skip(i as int)),
        decreases results@.len() - i,
    {
        assert(results@.skip(i as int)[0] == results@[i as int]);
        assert(results@.skip(i as int).drop_first() =~= results@.skip(i + 1));
        if let Err(e) = &results[i] {
            return Err(e.clone());
        }
        i += 1;
    }
    if timed_out {
        Err(RuntimeError::Timeout)
    } else {
        Ok(())
    }
}

/// What may happen to a run.
pub enum RunOp {
    PollInterrupt,
    PollCancel,
    BeforeTurn(bool),
    Started(TurnView),
    Clear,
}

pub open spec fn apply(f: RunFacts, op: RunOp) -> RunFacts {
    match op {
        RunOp::PollInterrupt => f.poll_interrupt().0,
        RunOp::PollCancel => f.poll_cancel().0,
        RunOp::BeforeTurn(cancelled) => f.before_turn(cancelled).0,
        RunOp::Started(turn) => f.started(turn),
        RunOp::Clear => f.cleared(),
    }
}

pub open spec fn apply_all(f: RunFacts, ops: Seq<RunOp>) -> RunFacts
    decreases ops.len(),
{
    if ops.len() == 0 {
        f
    } else {
        apply(apply_all(f, ops.drop_last()), ops.last())
    }
}

/// The outcome of an interrupt is kept, whatever happens to the run, and everyone
/// who asks gets it: the turn is not interrupted again, and a failed interrupt is
/// never taken for a cancelled run.
pub proof fn law_interrupt_outcome_is_kept(f: RunFacts, ops: Seq<RunOp>)
    requires
        f.outcome() is Some,
    ensures
        ({
            let g = apply_all(f, ops);
            &&& g.outcome() == f.outcome()
            &&& g.poll_interrupt() == (g, InterruptStepView::Outcome(f.outcome()->0))
            &&& g.poll_cancel() == (g, CancelStepView::Outcome(f.outcome()->0))
        }),
    decreases ops.len(),
{
    if ops.len() > 0 {
        law_interrupt_outcome_is_kept(f, ops.drop_last());
    }
}

/// While an interrupt is in flight, no other one is sent.
pub proof fn law_one_interrupt_at_a_time(f: RunFacts, ops: Seq<RunOp>)
    requires
        f.cancellation == Some(CancelView::InterruptInFlight),
        forall|i: int| 0 <= i < ops.len() ==> !((#[trigger] ops[i]) is Clear),
    ensures
        apply_all(f, ops).poll_interrupt().1 is Wait,
    decreases ops.len(),
{
    lemma_in_flight_stays(f, ops);
}

proof fn lemma_in_flight_stays(f: RunFacts, ops: Seq<RunOp>)
    requires
        f.cancellation == Some(CancelView::InterruptInFlight),
        forall|i: int| 0 <= i < ops.len() ==> !((#[trigger] ops[i]) is Clear),
    ensures
        apply_all(f, ops).cancellation == Some(CancelView::InterruptInFlight),
    decreases ops.len(),
{
    if ops.len() > 0 {
        assert forall|i: int| 0 <= i < ops.drop_last().len() implies !((
        #[trigger] ops.drop_last()[i]) is Clear) by {
            assert(ops.drop_last()[i] == ops[i]);
        }
        lemma_in_flight_stays(f, ops.drop_last());
        assert(ops.last() == ops[ops.len() - 1]);
    }
}

/// A run that was cancelled before its turn was started does not start it.
pub proof fn law_cancelled_run_starts_no_turn(f: RunFacts, cancelled: bool)
    requires
        f.turn is None,
    ensures
        f.poll_cancel().1 is BeforeTurn ==> !(f.poll_cancel().0.before_turn(cancelled).1 is Start),
        f.before_turn(cancelled).1 is Start ==> !(f.before_turn(
            cancelled,
        ).0.poll_cancel().1 is BeforeTurn),
{
}

} // verus!
