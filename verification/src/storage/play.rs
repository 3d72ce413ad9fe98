//! How scopes are played with an engine: the values bound to its statements, the
//! columns of its rows, and the steps that its replies lead to.
use crate::storage::engine::{Reply, Row, SqlValue, TransactionBehavior};
use crate::storage::laws::{is_history, takes, History};
use crate::storage::scope::{
    answered, follows, moved, proceeds, Check, End, Ending, Phase, Progress, Request, Scope, Sequence, Step,
};
use std::collections::VecDeque;
use vstd::prelude::*;

verus! {

/// The text bound to parameter `i`, counted from 0.
pub open spec fn bound_text(params: Seq<SqlValue>, i: int) -> Seq<char> {
    match params[i] {
        SqlValue::Text(text) => text@,
        SqlValue::Integer(_) => arbitrary(),
    }
}

/// The number bound to parameter `i`, counted from 0.
pub open spec fn bound_number(params: Seq<SqlValue>, i: int) -> i64 {
    match params[i] {
        SqlValue::Integer(value) => value,
        SqlValue::Text(_) => arbitrary(),
    }
}

/// Whether column `i` of `row` reads as `text`.
pub open spec fn column_text(row: Row, i: int, text: Seq<char>) -> bool {
    i < row.cells@.len() && (row.cells@[i].text matches Ok(held) && held@ == text)
}

/// Whether column `i` of `row` reads as `value`.
pub open spec fn column_number(row: Row, i: int, value: i64) -> bool {
    i < row.cells@.len() && (row.cells@[i].integer matches Ok(held) && held == value)
}

/// Whether column `i` of `row` reads as text that may be absent.
pub open spec fn column_option(row: Row, i: int, text: Option<Seq<char>>) -> bool {
    i < row.cells@.len() && match row.cells@[i].optional_text {
        Ok(Some(held)) => text == Some(held@),
        Ok(None) => text is None,
        Err(_) => false,
    }
}

/// Whether the engine failed at a request for a reason of its own.
pub open spec fn fails(reply: Reply) -> bool {
    reply matches Err(error) && error.constraint is None
}

/// Whether the engine does what it is asked along `h`: it begins, commits and
/// rolls back, and refuses statements only because of a constraint.
pub open spec fn smooth<C: Check>(h: History<C>) -> bool {
    forall|i: int|
        0 <= i < h.replies.len() ==> (#[trigger] h.replies[i] matches Err(error) ==> h.requests[i]
            is Run && error.constraint is Some)
}

/// Whether `h` is what comes of a scope and its first request when it is stepped
/// with each reply.
pub open spec fn plays<C: Check>(begun: (Scope<C>, Request), h: History<C>) -> bool {
    &&& h.phases.len() == h.replies.len() + 1
    &&& h.requests.len() == h.replies.len() + 1
    &&& h.phases[0] == begun.0.phase
    &&& h.requests[0] == begun.1
    &&& forall|i: int| 0 <= i < h.replies.len() ==> #[trigger] steps_at(begun, h, i)
}

/// Whether the scope takes reply `i` of `h` as `Scope::step` does.
pub open spec fn steps_at<C: Check>(begun: (Scope<C>, Request), h: History<C>, i: int) -> bool {
    call_ensures(
        Scope::<C>::step,
        (Scope { end: begun.0.end, phase: h.phases[i] }, h.replies[i]),
        (Scope { end: begun.0.end, phase: h.phases[i + 1] }, h.requests[i + 1]),
    )
}

/// What is played from the opening of a scope is a history of its steps.
pub proof fn lemma_history<C: Check>(
    begun: (Scope<C>, Request),
    steps: Seq<Step<C>>,
    h: History<C>,
)
    requires
        plays(begun, h),
        begun.0.phase matches Phase::Opening(sequence) && sequence.steps() == steps
            && sequence.complete(),
        begun.1 == Request::Begin(TransactionBehavior::Immediate),
    ensures
        is_history(begun.0.end, steps, h),
{
    assert forall|i: int| 0 <= i < h.replies.len() implies #[trigger] follows(
        begun.0.end,
        h.phases[i],
        h.replies[i],
        h.phases[i + 1],
        h.requests[i + 1],
    ) by {
        assert(steps_at(begun, h, i));
    }
}

/// A scope begins at once to take its locks, with the end that it is given.
pub proof fn law_scopes_begin_immediately<C: Check>(
    end: End,
    steps: VecDeque<Step<C>>,
    r: (Scope<C>, Request),
)
    requires
        call_ensures(Scope::<C>::new, (end, steps), r),
    ensures
        r.0.end == end,
        r.0.phase is Opening,
        r.1 == Request::Begin(TransactionBehavior::Immediate),
{
}

/// A scope whose begin fails ends there. One whose commit fails requests the
/// rollback, one that commits or was rolled back ends, and an end says what came
/// of each request. A reply that is refused leads to the rollback.
pub proof fn law_scopes_end_as_they_are_told<C: Check>(
    scope: Scope<C>,
    reply: Reply,
    r: (Scope<C>, Request),
)
    requires
        call_ensures(Scope::<C>::step, (scope, reply), r),
    ensures
        r.0.end == scope.end,
        match scope.phase {
            Phase::Opening(_) => reply matches Err(failure) ==> r.0.phase == Phase::<C>::Closed(
                Ending::NotBegun(failure),
            ) && r.1 is Stop,
            Phase::Running { check, .. } => match r.0.phase {
                Phase::Running { .. } => r.1 is Run && takes(check, reply),
                Phase::Committing => r.1 is Commit && takes(check, reply) && scope.end is Commit,
                Phase::RollingBack(Ok(_)) => r.1 is Rollback && takes(check, reply) && scope.end
                    is Rollback,
                Phase::RollingBack(Err(_)) => r.1 is Rollback,
                _ => false,
            },
            Phase::Committing => match reply {
                Ok(_) => r.0.phase == Phase::<C>::Closed(Ending::Committed) && r.1 is Stop,
                Err(failure) => r.0.phase == Phase::<C>::Undoing(failure) && r.1 is UndoCommit,
            },
            Phase::Undoing(commit) => match reply {
                Ok(_) => r.0.phase == Phase::<C>::Closed(
                    Ending::CommitFailed { commit, rollback: Ok(()) },
                ) && r.1 is Stop,
                Err(failure) => r.0.phase == Phase::<C>::Closed(
                    Ending::CommitFailed { commit, rollback: Err(failure) },
                ) && r.1 is Stop,
            },
            Phase::RollingBack(outcome) => match reply {
                Ok(_) => r.0.phase == Phase::<C>::Closed(
                    Ending::RolledBack { outcome, rollback: Ok(()) },
                ) && r.1 is Stop,
                Err(failure) => r.0.phase == Phase::<C>::Closed(
                    Ending::RolledBack { outcome, rollback: Err(failure) },
                ) && r.1 is Stop,
            },
            Phase::Closed(_) => r.0.phase == scope.phase && r.1 is Stop,
        },
{
    if let Phase::Running { check, rest } = scope.phase {
        let progress = choose|progress: Progress<C>| #[trigger]
            answered(rest.steps(), rest.complete(), check, reply, progress) && proceeds(
                scope.end,
                progress,
                r.0.phase,
                r.1,
            );
        let verdict = choose|verdict: Result<bool, C::Fault>| #[trigger]
            check.judged(reply, verdict) && match verdict {
                Ok(present) => moved(rest.steps(), rest.complete() && present, progress),
                Err(fault) => progress == Progress::<C>::Done(Err(fault)),
            };
        if let Ok(present) = verdict {
            assert(check.judged(reply, Ok::<bool, C::Fault>(present)));
            assert(takes(check, reply));
        }
    }
}

/// A sequence asks the statements of its steps in their order, and stops at the
/// first that refuses.
pub proof fn law_sequences_ask_in_order<C: Check>(
    steps: VecDeque<Step<C>>,
    sequence: Sequence<C>,
    first: Progress<C>,
)
    requires
        call_ensures(Sequence::<C>::new, (steps,), sequence),
        call_ensures(Sequence::<C>::next, (sequence,), first),
    ensures
        if steps@.len() == 0 {
            first == Progress::<C>::Done(Ok(true))
        } else {
            match steps@[0] {
                Step::Run { statement, check } => first matches Progress::Ask {
                    statement: asked,
                    check: with,
                    rest,
                } && asked == statement && with == check && forall|second: Progress<C>|
                    call_ensures(Sequence::<C>::next, (rest,), second) ==> if steps@.len() == 1 {
                        second == Progress::<C>::Done(Ok(true))
                    } else {
                        match steps@[1] {
                            Step::Run { statement, .. } => second matches Progress::Ask {
                                statement: asked,
                                ..
                            } && asked == statement,
                            Step::Refuse(fault) => second == Progress::<C>::Done(Err(fault)),
                        }
                    },
                Step::Refuse(fault) => first == Progress::<C>::Done(Err(fault)),
            }
        },
{
    if steps@.len() > 1 {
        assert(steps@.drop_first()[0] == steps@[1]);
    }
}

} // verus!
