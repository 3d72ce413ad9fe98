//! Sequences of judged statements and the transactions that hold them.
//!
//! A [`Sequence`] asks one statement after the other and stops at the first
//! reply that its check refuses. A [`Scope`] runs a sequence inside a write
//! transaction and ends it explicitly: with a commit, or with a rollback that
//! is requested before the outcome is handed out.
use crate::storage::engine::{
    authority_transaction_behavior, Asked, EngineError, Reply, Statement, TransactionBehavior,
};
use std::collections::VecDeque;
use vstd::prelude::*;

verus! {

/// Judges the reply to a statement.
pub trait Check: Sized {
    /// Why a reply is refused.
    type Fault;

    /// Whether `verdict` is what the check makes of `reply`.
    spec fn judged(self, reply: Reply, verdict: Result<bool, Self::Fault>) -> bool;

    /// Accepts or refuses a reply. An accepted reply shows the feature it
    /// speaks of as present or as tolerably absent.
    fn judge(self, reply: Reply) -> (verdict: Result<bool, Self::Fault>)
        ensures
            self.judged(reply, verdict),
    ;
}

/// One step of a sequence: a statement whose reply is checked, or a refusal
/// that needs no statement.
pub enum Step<C: Check> {
    Run { statement: Statement, check: C },
    Refuse(C::Fault),
}

/// Whether `step` asks `asked` and hands the reply to `check`.
pub open spec fn is_step<C: Check>(step: Step<C>, asked: Asked, check: C) -> bool {
    step matches Step::Run { statement, check: with } && statement@ == asked && with == check
}

/// The steps still to be taken, and whether every feature met was present.
pub struct Sequence<C: Check> {
    remaining: VecDeque<Step<C>>,
    complete: bool,
}

/// Where a sequence stands: a statement is to be asked, or it is done.
pub enum Progress<C: Check> {
    Ask { statement: Statement, check: C, rest: Sequence<C> },
    Done(Result<bool, C::Fault>),
}

/// Whether `progress` is the next move of a sequence with these steps.
pub open spec fn moved<C: Check>(
    steps: Seq<Step<C>>,
    complete: bool,
    progress: Progress<C>,
) -> bool {
    if steps.len() == 0 {
        progress == Progress::<C>::Done(Ok(complete))
    } else {
        match steps[0] {
            Step::Run { statement, check } => {
                &&& progress matches Progress::Ask { statement: asked, check: with, rest }
                &&& asked == statement
                &&& with == check
                &&& rest.steps() == steps.drop_first()
                &&& rest.complete() == complete
            },
            Step::Refuse(fault) => progress == Progress::<C>::Done(Err(fault)),
        }
    }
}

/// Whether `progress` follows when a sequence with these steps has been asking
/// a statement that `check` judges and `reply` came back.
pub open spec fn answered<C: Check>(
    steps: Seq<Step<C>>,
    complete: bool,
    check: C,
    reply: Reply,
    progress: Progress<C>,
) -> bool {
    exists|verdict: Result<bool, C::Fault>| #[trigger]
        check.judged(reply, verdict) && match verdict {
            Ok(present) => moved(steps, complete && present, progress),
            Err(fault) => progress == Progress::<C>::Done(Err(fault)),
        }
}

impl<C: Check> Sequence<C> {
    /// The steps still to be taken.
    pub closed spec fn steps(self) -> Seq<Step<C>> {
        self.remaining@
    }

    /// Whether every feature met so far was present.
    pub closed spec fn complete(self) -> bool {
        self.complete
    }

    /// A sequence that has taken no step yet.
    pub fn new(steps: VecDeque<Step<C>>) -> (r: Sequence<C>)
        ensures
            r.steps() == steps@,
            r.complete(),
    {
        Sequence { remaining: steps, complete: true }
    }

    /// Moves to the next statement.
    pub fn next(self) -> (r: Progress<C>)
        ensures
            moved(self.steps(), self.complete(), r),
    {
        let mut remaining = self.remaining;
        match remaining.pop_front() {
            None => Progress::Done(Ok(self.complete)),
            Some(Step::Run { statement, check }) => {
                proof {
                    assert(remaining@ =~= self.remaining@.drop_first());
                }
                Progress::Ask {
                    statement,
                    check,
                    rest: Sequence { remaining, complete: self.complete },
                }
            },
            Some(Step::Refuse(fault)) => Progress::Done(Err(fault)),
        }
    }

    /// Takes the reply to the statement that was asked last.
    pub fn answer(self, check: C, reply: Reply) -> (r: Progress<C>)
        ensures
            answered(self.steps(), self.complete(), check, reply, r),
    {
        let verdict = check.judge(reply);
        proof {
            assert(check.judged(reply, verdict));
        }
        match verdict {
            Ok(present) => {
                let rest = Sequence {
                    remaining: self.remaining,
                    complete: self.complete && present,
                };
                rest.next()
            },
            Err(fault) => Progress::Done(Err(fault)),
        }
    }
}

/// How a transaction ends when its sequence was accepted.
#[derive(Debug, Clone, Copy, PartialEq, Eq, Structural)]
pub enum End {
    Commit,
    Rollback,
}

/// What a scope asks of the connection that it runs on.
pub enum Request {
    /// Begins a transaction.
    Begin(TransactionBehavior),
    /// Runs a statement inside it.
    Run(Statement),
    /// Commits it.
    Commit,
    /// Rolls back after a commit that failed.
    UndoCommit,
    /// Rolls it back.
    Rollback,
    /// Nothing more.
    Stop,
}

/// How a scope ended.
pub enum Ending<F> {
    /// The transaction could not begin.
    NotBegun(EngineError),
    /// The transaction committed.
    Committed,
    /// The commit failed; what the rollback after it gave.
    CommitFailed { commit: EngineError, rollback: Result<(), EngineError> },
    /// The transaction was rolled back; what came of its sequence and what the
    /// rollback gave.
    RolledBack { outcome: Result<bool, F>, rollback: Result<(), EngineError> },
}

/// Where a scope stands.
pub enum Phase<C: Check> {
    Opening(Sequence<C>),
    Running { check: C, rest: Sequence<C> },
    Committing,
    Undoing(EngineError),
    RollingBack(Result<bool, C::Fault>),
    Closed(Ending<C::Fault>),
}

/// What a reply to a transaction request says: done, or the failure.
pub open spec fn acknowledged(reply: Reply) -> Result<(), EngineError> {
    match reply {
        Ok(_) => Ok(()),
        Err(error) => Err(error),
    }
}

/// Whether a scope whose sequence came to `outcome` goes on like this: it
/// commits an accepted sequence if that is its end, and else rolls back.
pub open spec fn settles<C: Check>(
    end: End,
    outcome: Result<bool, C::Fault>,
    post: Phase<C>,
    request: Request,
) -> bool {
    if outcome is Ok && end is Commit {
        post is Committing && request is Commit
    } else {
        post == Phase::<C>::RollingBack(outcome) && request is Rollback
    }
}

/// Whether a scope goes on like this when its sequence has made `progress`.
pub open spec fn proceeds<C: Check>(
    end: End,
    progress: Progress<C>,
    post: Phase<C>,
    request: Request,
) -> bool {
    match progress {
        Progress::Ask { statement, check, rest } => {
            &&& post == Phase::Running { check, rest }
            &&& request == Request::Run(statement)
        },
        Progress::Done(outcome) => settles(end, outcome, post, request),
    }
}

/// Whether a scope that stands at `pre` and gets `reply` goes to `post` and
/// makes `request`.
pub open spec fn follows<C: Check>(
    end: End,
    pre: Phase<C>,
    reply: Reply,
    post: Phase<C>,
    request: Request,
) -> bool {
    match pre {
        Phase::Opening(sequence) => match reply {
            Err(error) => post == Phase::<C>::Closed(Ending::NotBegun(error)) && request is Stop,
            Ok(_) => exists|progress: Progress<C>| #[trigger]
                moved(sequence.steps(), sequence.complete(), progress) && proceeds(
                    end,
                    progress,
                    post,
                    request,
                ),
        },
        Phase::Running { check, rest } => exists|progress: Progress<C>| #[trigger]
            answered(rest.steps(), rest.complete(), check, reply, progress) && proceeds(
                end,
                progress,
                post,
                request,
            ),
        Phase::Committing => match reply {
            Ok(_) => post == Phase::<C>::Closed(Ending::Committed) && request is Stop,
            Err(error) => post == Phase::<C>::Undoing(error) && request is UndoCommit,
        },
        Phase::Undoing(commit) => {
            &&& post == Phase::<C>::Closed(
                Ending::CommitFailed { commit, rollback: acknowledged(reply) },
            )
            &&& request is Stop
        },
        Phase::RollingBack(outcome) => {
            &&& post == Phase::<C>::Closed(
                Ending::RolledBack { outcome, rollback: acknowledged(reply) },
            )
            &&& request is Stop
        },
        Phase::Closed(ending) => post == pre && request is Stop,
    }
}

/// A write transaction that holds a sequence.
pub struct Scope<C: Check> {
    pub end: End,
    pub phase: Phase<C>,
}

impl<C: Check> Scope<C> {
    /// A scope that is about to begin, and the request that begins it.
    pub fn new(end: End, steps: VecDeque<Step<C>>) -> (r: (Scope<C>, Request))
        ensures
            r.0.end == end,
            (r.0.phase matches Phase::Opening(sequence) && sequence.steps() == steps@
                && sequence.complete()),
            r.1 == Request::Begin(TransactionBehavior::Immediate),
    {
        let behavior = authority_transaction_behavior();
        (Scope { end, phase: Phase::Opening(Sequence::new(steps)) }, Request::Begin(behavior))
    }

    fn settle(end: End, outcome: Result<bool, C::Fault>) -> (r: (Scope<C>, Request))
        ensures
            r.0.end == end,
            settles(end, outcome, r.0.phase, r.1),
    {
        match outcome {
            Ok(complete) => match end {
                End::Commit => (Scope { end, phase: Phase::Committing }, Request::Commit),
                End::Rollback => (
                    Scope { end, phase: Phase::RollingBack(Ok(complete)) },
                    Request::Rollback,
                ),
            },
            Err(fault) => (
                Scope { end, phase: Phase::RollingBack(Err(fault)) },
                Request::Rollback,
            ),
        }
    }

    fn proceed(end: End, progress: Progress<C>) -> (r: (Scope<C>, Request))
        ensures
            r.0.end == end,
            proceeds(end, progress, r.0.phase, r.1),
    {
        match progress {
            Progress::Ask { statement, check, rest } => (
                Scope { end, phase: Phase::Running { check, rest } },
                Request::Run(statement),
            ),
            Progress::Done(outcome) => Scope::settle(end, outcome),
        }
    }

    /// Takes the reply to the last request and makes the next one.
    pub fn step(self, reply: Reply) -> (r: (Scope<C>, Request))
        ensures
            r.0.end == self.end,
            follows(self.end, self.phase, reply, r.0.phase, r.1),
    {
        let end = self.end;
        match self.phase {
            Phase::Opening(sequence) => match reply {
                Err(error) => (
                    Scope { end, phase: Phase::Closed(Ending::NotBegun(error)) },
                    Request::Stop,
                ),
                Ok(_) => {
                    let progress = sequence.next();
                    Scope::proceed(end, progress)
                },
            },
            Phase::Running { check, rest } => {
                let progress = rest.answer(check, reply);
                Scope::proceed(end, progress)
            },
            Phase::Committing => match reply {
                Ok(_) => (Scope { end, phase: Phase::Closed(Ending::Committed) }, Request::Stop),
                Err(error) => (Scope { end, phase: Phase::Undoing(error) }, Request::UndoCommit),
            },
            Phase::Undoing(commit) => {
                let rollback = match reply {
                    Ok(_) => Ok(()),
                    Err(error) => Err(error),
                };
                (
                    Scope { end, phase: Phase::Closed(Ending::CommitFailed { commit, rollback }) },
                    Request::Stop,
                )
            },
            Phase::RollingBack(outcome) => {
                let rollback = match reply {
                    Ok(_) => Ok(()),
                    Err(error) => Err(error),
                };
                (
                    Scope { end, phase: Phase::Closed(Ending::RolledBack { outcome, rollback }) },
                    Request::Stop,
                )
            },
            Phase::Closed(ending) => (Scope { end, phase: Phase::Closed(ending) }, Request::Stop),
        }
    }
}

} // verus!
