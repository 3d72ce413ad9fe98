//! What holds of every history of a write scope, whatever the engine replies.
use crate::storage::engine::{EngineError, Reply, TransactionBehavior};
use crate::storage::scope::{
    acknowledged, answered, follows, moved, proceeds, Check, End, Ending, Phase, Progress, Request,
    Step,
};
use vstd::prelude::*;

verus! {

/// A history of a scope: where it stood, what it requested there, and what was
/// replied. `requests[i]` is made on the way to `phases[i]`, and `replies[i]`
/// answers it.
pub struct History<C: Check> {
    pub phases: Seq<Phase<C>>,
    pub requests: Seq<Request>,
    pub replies: Seq<Reply>,
}

/// Whether `h` is a history of a scope that begins with `steps`.
pub open spec fn is_history<C: Check>(end: End, steps: Seq<Step<C>>, h: History<C>) -> bool {
    &&& h.phases.len() == h.replies.len() + 1
    &&& h.requests.len() == h.replies.len() + 1
    &&& h.phases[0] matches Phase::Opening(sequence)
    &&& sequence.steps() == steps
    &&& sequence.complete()
    &&& h.requests[0] == Request::Begin(TransactionBehavior::Immediate)
    &&& forall|i: int|
        0 <= i < h.replies.len() ==> #[trigger] follows(
            end,
            h.phases[i],
            h.replies[i],
            h.phases[i + 1],
            h.requests[i + 1],
        )
}

/// Whether `step` runs a statement and `request` asks for it.
pub open spec fn asks<C: Check>(step: Step<C>, request: Request) -> bool {
    step matches Step::Run { statement, .. } && request == Request::Run(statement)
}

/// Whether `check` accepts `reply`.
pub open spec fn takes<C: Check>(check: C, reply: Reply) -> bool {
    exists|present: bool| #[trigger] check.judged(reply, Ok::<bool, C::Fault>(present))
}

/// Whether `step` runs a statement and its check accepts `reply`.
pub open spec fn accepts<C: Check>(step: Step<C>, reply: Reply) -> bool {
    step matches Step::Run { check, .. } && takes(check, reply)
}

/// Whether the first `n` steps were requested in order, right after the begin.
pub open spec fn asked<C: Check>(steps: Seq<Step<C>>, h: History<C>, n: int) -> bool {
    forall|k: int| 1 <= k <= n ==> asks(#[trigger] steps[k - 1], h.requests[k])
}

/// Whether the replies to the first `n` steps were accepted.
pub open spec fn accepted<C: Check>(steps: Seq<Step<C>>, h: History<C>, n: int) -> bool {
    forall|k: int| 1 <= k <= n ==> accepts(#[trigger] steps[k - 1], h.replies[k])
}

/// Whether `bits` say, for each of the first steps, what its check made of the
/// reply.
pub open spec fn findings<C: Check>(steps: Seq<Step<C>>, h: History<C>, bits: Seq<bool>) -> bool {
    &&& bits.len() <= steps.len()
    &&& forall|k: int|
        0 <= k < bits.len() ==> (#[trigger] steps[k] matches Step::Run { check, .. }
            && check.judged(h.replies[k + 1], Ok::<bool, C::Fault>(bits[k])))
}

/// Whether `complete` says that each of the first `n` steps found its feature
/// present.
pub open spec fn all_found<C: Check>(
    steps: Seq<Step<C>>,
    h: History<C>,
    n: int,
    complete: bool,
) -> bool {
    exists|bits: Seq<bool>| #[trigger]
        findings(steps, h, bits) && bits.len() == n && (complete <==> forall|k: int|
            0 <= k < n ==> #[trigger] bits[k])
}

/// Whether nothing but the begin and statements was requested up to place `n`.
pub open spec fn only_statements<C: Check>(h: History<C>, n: int) -> bool {
    forall|k: int| 1 <= k <= n ==> (#[trigger] h.requests[k]) is Run
}

/// Whether nothing was requested after place `from`, up to place `to`.
pub open spec fn silent<C: Check>(h: History<C>, from: int, to: int) -> bool {
    forall|k: int| from < k <= to ==> (#[trigger] h.requests[k]) is Stop
}

spec fn closed_by_commit<C: Check>(steps: Seq<Step<C>>, h: History<C>, i: int) -> bool {
    let n = steps.len() as int;
    &&& i >= n + 2
    &&& asked(steps, h, n)
    &&& accepted(steps, h, n)
    &&& h.requests[n + 1] is Commit
    &&& h.replies[n + 1] is Ok
    &&& silent(h, n + 1, i)
}

spec fn closed_by_undo<C: Check>(steps: Seq<Step<C>>, h: History<C>, i: int) -> bool {
    let n = steps.len() as int;
    &&& i >= n + 3
    &&& asked(steps, h, n)
    &&& accepted(steps, h, n)
    &&& h.requests[n + 1] is Commit
    &&& h.replies[n + 1] is Err
    &&& h.requests[n + 2] is UndoCommit
    &&& silent(h, n + 2, i)
}

spec fn closed_by_rollback<C: Check>(
    end: End,
    steps: Seq<Step<C>>,
    h: History<C>,
    outcome: Result<bool, C::Fault>,
    i: int,
) -> bool {
    exists|j: int| #[trigger] rolled_back_at(end, steps, h, outcome, i, j)
}

/// Whether the rollback was requested at place `j` and nothing after it.
pub open spec fn rolled_back_at<C: Check>(
    end: End,
    steps: Seq<Step<C>>,
    h: History<C>,
    outcome: Result<bool, C::Fault>,
    i: int,
    j: int,
) -> bool {
    let n = steps.len() as int;
    &&& 1 <= j < i
    &&& j <= n + 1
    &&& h.requests[j] is Rollback
    &&& only_statements(h, j - 1)
    &&& asked(steps, h, j - 1)
    &&& silent(h, j, i)
    &&& outcome matches Ok(complete) ==> {
        &&& end is Rollback
        &&& j == n + 1
        &&& accepted(steps, h, n)
        &&& all_found(steps, h, n, complete)
    }
}

spec fn standing<C: Check>(end: End, steps: Seq<Step<C>>, h: History<C>, i: int) -> bool {
    let n = steps.len() as int;
    match h.phases[i] {
        Phase::Opening(_) => i == 0,
        Phase::Running { check, rest } => {
            &&& 1 <= i <= n
            &&& rest.steps() == steps.skip(i)
            &&& steps[i - 1] matches Step::Run { check: with, .. }
            &&& with == check
            &&& asked(steps, h, i)
            &&& only_statements(h, i)
            &&& accepted(steps, h, i - 1)
            &&& all_found(steps, h, i - 1, rest.complete())
        },
        Phase::Committing => {
            &&& end is Commit
            &&& i == n + 1
            &&& asked(steps, h, n)
            &&& accepted(steps, h, n)
            &&& h.requests[i] is Commit
        },
        Phase::Undoing(_) => {
            &&& end is Commit
            &&& i == n + 2
            &&& asked(steps, h, n)
            &&& accepted(steps, h, n)
            &&& h.requests[n + 1] is Commit
            &&& h.replies[n + 1] is Err
            &&& h.requests[i] is UndoCommit
        },
        Phase::RollingBack(outcome) => {
            &&& 1 <= i <= n + 1
            &&& h.requests[i] is Rollback
            &&& only_statements(h, i - 1)
            &&& asked(steps, h, i - 1)
            &&& outcome matches Ok(complete) ==> {
                &&& end is Rollback
                &&& i == n + 1
                &&& accepted(steps, h, n)
                &&& all_found(steps, h, n, complete)
            }
        },
        Phase::Closed(ending) => match ending {
            Ending::NotBegun(error) => {
                &&& i >= 1
                &&& h.replies[0] is Err
                &&& silent(h, 0, i)
            },
            Ending::Committed => end is Commit && closed_by_commit(steps, h, i),
            Ending::CommitFailed { .. } => end is Commit && closed_by_undo(steps, h, i),
            Ending::RolledBack { outcome, .. } => closed_by_rollback(end, steps, h, outcome, i),
        },
    }
}

proof fn lemma_proceeds<C: Check>(
    end: End,
    steps: Seq<Step<C>>,
    h: History<C>,
    i: int,
    rest: Seq<Step<C>>,
    complete: bool,
    progress: Progress<C>,
)
    requires
        is_history(end, steps, h),
        0 <= i < h.replies.len(),
        i <= steps.len(),
        rest == steps.skip(i),
        asked(steps, h, i),
        accepted(steps, h, i),
        all_found(steps, h, i, complete),
        only_statements(h, i),
        moved(rest, complete, progress),
        proceeds(end, progress, h.phases[i + 1], h.requests[i + 1]),
    ensures
        standing(end, steps, h, i + 1),
{
    if rest.len() > 0 {
        assert(rest[0] == steps[i]);
        assert(rest.drop_first() =~= steps.skip(i + 1));
        match steps[i] {
            Step::Run { statement, check } => {
                assert forall|k: int| 1 <= k <= i + 1 implies asks(
                    #[trigger] steps[k - 1],
                    h.requests[k],
                ) by {
                    if k == i + 1 {
                        assert(h.requests[k] == Request::Run(statement));
                    }
                }
            },
            Step::Refuse(fault) => {},
        }
    } else {
        assert(i == steps.len());
    }
}

proof fn lemma_found<C: Check>(
    steps: Seq<Step<C>>,
    h: History<C>,
    p: int,
    check: C,
    complete: bool,
    present: bool,
)
    requires
        1 <= p <= steps.len(),
        all_found(steps, h, p - 1, complete),
        steps[p - 1] matches Step::Run { check: with, .. } && with == check,
        check.judged(h.replies[p], Ok::<bool, C::Fault>(present)),
    ensures
        all_found(steps, h, p, complete && present),
{
    let bits = choose|bits: Seq<bool>| #[trigger]
        findings(steps, h, bits) && bits.len() == p - 1 && (complete <==> forall|k: int|
            0 <= k < p - 1 ==> #[trigger] bits[k]);
    let more = bits.push(present);
    assert(findings(steps, h, more)) by {
        assert forall|k: int| 0 <= k < more.len() implies (#[trigger] steps[k] matches Step::Run {
            check,
            ..
        } && check.judged(h.replies[k + 1], Ok::<bool, C::Fault>(more[k]))) by {
            if k < p - 1 {
                assert(more[k] == bits[k]);
            }
        }
    }
    if complete && present {
        assert forall|k: int| 0 <= k < p implies #[trigger] more[k] by {
            if k < p - 1 {
                assert(bits[k]);
            }
        }
    }
    if forall|k: int| 0 <= k < p ==> #[trigger] more[k] {
        assert(more[p - 1]);
        assert forall|k: int| 0 <= k < p - 1 implies #[trigger] bits[k] by {
            assert(more[k]);
        }
    }
}

proof fn lemma_refused<C: Check>(
    end: End,
    steps: Seq<Step<C>>,
    h: History<C>,
    i: int,
    fault: C::Fault,
)
    requires
        is_history(end, steps, h),
        1 <= i < h.replies.len(),
        i <= steps.len(),
        asked(steps, h, i),
        only_statements(h, i),
        proceeds(
            end,
            Progress::<C>::Done(Err(fault)),
            h.phases[i + 1],
            h.requests[i + 1],
        ),
    ensures
        standing(end, steps, h, i + 1),
{
}

proof fn lemma_standing<C: Check>(end: End, steps: Seq<Step<C>>, h: History<C>, i: int)
    requires
        is_history(end, steps, h),
        0 <= i <= h.replies.len(),
    ensures
        standing(end, steps, h, i),
    decreases i,
{
    if i > 0 {
        let p = i - 1;
        lemma_standing(end, steps, h, p);
        assert(follows(end, h.phases[p], h.replies[p], h.phases[p + 1], h.requests[p + 1]));
        match h.phases[p] {
            Phase::Opening(sequence) => {
                if h.replies[p] is Ok {
                    let progress = choose|progress: Progress<C>| #[trigger]
                        moved(sequence.steps(), sequence.complete(), progress) && proceeds(
                            end,
                            progress,
                            h.phases[i],
                            h.requests[i],
                        );
                    assert(steps.skip(0) =~= steps);
                    assert(findings(steps, h, Seq::<bool>::empty()));
                    lemma_proceeds(end, steps, h, 0, steps, sequence.complete(), progress);
                }
            },
            Phase::Running { check, rest } => {
                let progress = choose|progress: Progress<C>| #[trigger]
                    answered(rest.steps(), rest.complete(), check, h.replies[p], progress)
                        && proceeds(end, progress, h.phases[i], h.requests[i]);
                let verdict = choose|verdict: Result<bool, C::Fault>| #[trigger]
                    check.judged(h.replies[p], verdict) && match verdict {
                        Ok(present) => moved(rest.steps(), rest.complete() && present, progress),
                        Err(fault) => progress == Progress::<C>::Done(Err(fault)),
                    };
                match verdict {
                    Ok(present) => {
                        assert(accepts(steps[p - 1], h.replies[p])) by {
                            assert(check.judged(h.replies[p], Ok::<bool, C::Fault>(present)));
                        }
                        lemma_found(steps, h, p, check, rest.complete(), present);
                        lemma_proceeds(
                            end,
                            steps,
                            h,
                            p,
                            rest.steps(),
                            rest.complete() && present,
                            progress,
                        );
                    },
                    Err(fault) => {
                        lemma_refused(end, steps, h, p, fault);
                    },
                }
            },
            Phase::Committing => {},
            Phase::Undoing(_) => {},
            Phase::RollingBack(outcome) => {
                assert(rolled_back_at(end, steps, h, outcome, i, p));
            },
            Phase::Closed(ending) => {
                if let Ending::RolledBack { outcome, .. } = ending {
                    let j = choose|j: int| #[trigger]
                        rolled_back_at(end, steps, h, outcome, p, j);
                    assert(rolled_back_at(end, steps, h, outcome, i, j));
                }
            },
        }
    }
}

/// A scope that reports a commit has requested every step in order, had every
/// reply accepted, and then requested the commit, which succeeded. Nothing was
/// requested after it.
pub proof fn law_committed_ran_every_step<C: Check>(
    end: End,
    steps: Seq<Step<C>>,
    h: History<C>,
    i: int,
)
    requires
        is_history(end, steps, h),
        0 <= i <= h.replies.len(),
        h.phases[i] == Phase::<C>::Closed(Ending::Committed),
    ensures
        end is Commit,
        i >= steps.len() + 2,
        asked(steps, h, steps.len() as int),
        accepted(steps, h, steps.len() as int),
        h.requests[steps.len() as int + 1] is Commit,
        h.replies[steps.len() as int + 1] is Ok,
        silent(h, steps.len() as int + 1, i),
{
    lemma_standing(end, steps, h, i);
}

/// A scope whose commit failed has requested the rollback before it closes.
pub proof fn law_failed_commit_is_undone<C: Check>(
    end: End,
    steps: Seq<Step<C>>,
    h: History<C>,
    i: int,
)
    requires
        is_history(end, steps, h),
        0 <= i <= h.replies.len(),
        h.phases[i] matches Phase::Closed(Ending::CommitFailed { .. }),
    ensures
        h.requests[steps.len() as int + 1] is Commit,
        h.replies[steps.len() as int + 1] is Err,
        h.requests[steps.len() as int + 2] is UndoCommit,
        silent(h, steps.len() as int + 2, i),
{
    lemma_standing(end, steps, h, i);
}

/// A scope that reports a rollback requested it after statements alone, never
/// requested a commit, and requested nothing after the rollback. If its
/// sequence was accepted, every step ran, the scope was to roll back anyway,
/// and the outcome says whether every feature was found.
pub proof fn law_refusal_rolls_back<C: Check>(
    end: End,
    steps: Seq<Step<C>>,
    h: History<C>,
    i: int,
    outcome: Result<bool, C::Fault>,
    rollback: Result<(), EngineError>,
)
    requires
        is_history(end, steps, h),
        0 <= i <= h.replies.len(),
        h.phases[i] == Phase::<C>::Closed(Ending::RolledBack { outcome, rollback }),
    ensures
        exists|j: int| #[trigger] rolled_back_at(end, steps, h, outcome, i, j),
{
    lemma_standing(end, steps, h, i);
}

/// A scope that could not begin requested nothing else.
pub proof fn law_unbegun_scope_asks_nothing<C: Check>(
    end: End,
    steps: Seq<Step<C>>,
    h: History<C>,
    i: int,
)
    requires
        is_history(end, steps, h),
        0 <= i <= h.replies.len(),
        h.phases[i] matches Phase::Closed(Ending::NotBegun(_)),
    ensures
        h.replies[0] is Err,
        silent(h, 0, i),
{
    lemma_standing(end, steps, h, i);
}

/// A scope that is to roll back never requests a commit.
pub proof fn law_rollback_scope_never_commits<C: Check>(
    steps: Seq<Step<C>>,
    h: History<C>,
    i: int,
)
    requires
        is_history(End::Rollback, steps, h),
        0 <= i <= h.replies.len(),
    ensures
        !(h.requests[i] is Commit),
{
    lemma_standing(End::Rollback, steps, h, i);
    if i > 0 {
        lemma_standing(End::Rollback, steps, h, i - 1);
        let p = i - 1;
        assert(follows(
            End::Rollback,
            h.phases[p],
            h.replies[p],
            h.phases[p + 1],
            h.requests[p + 1],
        ));
    }
}

/// A scope that is to roll back ends unbegun or rolled back.
pub proof fn law_rollback_scope_ends_without_commit<C: Check>(
    steps: Seq<Step<C>>,
    h: History<C>,
    i: int,
)
    requires
        is_history(End::Rollback, steps, h),
        0 <= i <= h.replies.len(),
    ensures
        h.phases[i] matches Phase::Closed(ending) ==> ending is NotBegun || ending is RolledBack,
{
    lemma_standing(End::Rollback, steps, h, i);
}

/// A commit is requested only after every step was requested and accepted.
pub proof fn law_commit_follows_acceptance<C: Check>(
    end: End,
    steps: Seq<Step<C>>,
    h: History<C>,
    i: int,
)
    requires
        is_history(end, steps, h),
        0 <= i <= h.replies.len(),
        h.requests[i] is Commit,
    ensures
        i == steps.len() + 1,
        asked(steps, h, steps.len() as int),
        accepted(steps, h, steps.len() as int),
{
    lemma_standing(end, steps, h, i);
    if i > 0 {
        lemma_standing(end, steps, h, i - 1);
        let p = i - 1;
        assert(follows(end, h.phases[p], h.replies[p], h.phases[p + 1], h.requests[p + 1]));
    }
}

/// A reply that its check refuses ends the statements: the rollback is requested
/// next, and the refusal is kept as the outcome.
pub proof fn law_refused_reply_is_the_last<C: Check>(
    end: End,
    steps: Seq<Step<C>>,
    h: History<C>,
    i: int,
)
    requires
        is_history(end, steps, h),
        1 <= i < h.replies.len(),
        h.requests[i] is Run,
        !accepts(steps[i - 1], h.replies[i]),
    ensures
        i <= steps.len(),
        asked(steps, h, i),
        h.requests[i + 1] is Rollback,
        h.phases[i + 1] matches Phase::RollingBack(Err(fault)) && (
        steps[i - 1] matches Step::Run { check, .. } && check.judged(
            h.replies[i],
            Err::<bool, C::Fault>(fault),
        )),
{
    lemma_standing(end, steps, h, i);
    lemma_standing(end, steps, h, i + 1);
    assert(follows(end, h.phases[i], h.replies[i], h.phases[i + 1], h.requests[i + 1]));
    if let Phase::Running { check, rest } = h.phases[i] {
        let progress = choose|progress: Progress<C>| #[trigger]
            answered(rest.steps(), rest.complete(), check, h.replies[i], progress) && proceeds(
                end,
                progress,
                h.phases[i + 1],
                h.requests[i + 1],
            );
        let verdict = choose|verdict: Result<bool, C::Fault>| #[trigger]
            check.judged(h.replies[i], verdict) && match verdict {
                Ok(present) => moved(rest.steps(), rest.complete() && present, progress),
                Err(fault) => progress == Progress::<C>::Done(Err(fault)),
            };
        if let Ok(present) = verdict {
            assert(check.judged(h.replies[i], Ok::<bool, C::Fault>(present)));
            assert(accepts(steps[i - 1], h.replies[i]));
        }
    }
}

/// A scope with a step that refuses never requests a commit.
pub proof fn law_refusing_scope_never_commits<C: Check>(
    end: End,
    steps: Seq<Step<C>>,
    h: History<C>,
    i: int,
    k: int,
)
    requires
        is_history(end, steps, h),
        0 <= i <= h.replies.len(),
        0 <= k < steps.len(),
        steps[k] is Refuse,
    ensures
        !(h.requests[i] is Commit),
{
    if h.requests[i] is Commit {
        law_commit_follows_acceptance(end, steps, h, i);
        assert(asks(steps[(k + 1) - 1], h.requests[k + 1]));
    }
}

/// A scope runs no statement but those of its steps, each in its place.
pub proof fn law_statements_are_steps<C: Check>(
    end: End,
    steps: Seq<Step<C>>,
    h: History<C>,
    i: int,
)
    requires
        is_history(end, steps, h),
        0 <= i <= h.replies.len(),
    ensures
        h.requests[i] is Run ==> 1 <= i <= steps.len() && asks(steps[i - 1], h.requests[i]),
{
    lemma_standing(end, steps, h, i);
    if i > 0 {
        let p = i - 1;
        lemma_standing(end, steps, h, p);
        assert(follows(end, h.phases[p], h.replies[p], h.phases[p + 1], h.requests[p + 1]));
    }
}

/// Authority comes first: a scope begins with an immediate transaction, and it
/// runs statements only if that began.
pub proof fn law_authority_comes_first<C: Check>(
    end: End,
    steps: Seq<Step<C>>,
    h: History<C>,
    i: int,
)
    requires
        is_history(end, steps, h),
        0 <= i <= h.replies.len(),
        h.requests[i] is Run || h.requests[i] is Commit,
    ensures
        i > 0,
        h.requests[0] == Request::Begin(TransactionBehavior::Immediate),
        h.replies[0] is Ok,
{
    if i > 0 && h.replies[0] is Err {
        assert(follows(end, h.phases[0], h.replies[0], h.phases[0int + 1], h.requests[0int + 1]));
        lemma_stays_closed(end, steps, h, 1, i);
    }
}

/// Whether `check` can only accept `reply`.
pub open spec fn cannot_refuse<C: Check>(check: C, reply: Reply) -> bool {
    forall|fault: C::Fault| !(#[trigger] check.judged(reply, Err::<bool, C::Fault>(fault)))
}

/// Whether every one of `steps` runs a statement whose reply its check can only
/// accept.
pub open spec fn irrefutable<C: Check>(steps: Seq<Step<C>>, h: History<C>) -> bool {
    forall|k: int|
        0 <= k < steps.len() ==> (#[trigger] steps[k] matches Step::Run { check, .. }
            && cannot_refuse(check, h.replies[k + 1]))
}

proof fn lemma_unrefused<C: Check>(steps: Seq<Step<C>>, h: History<C>, i: int)
    requires
        is_history(End::Commit, steps, h),
        1 <= i <= h.replies.len(),
        i <= steps.len() + 1,
        h.replies[0] is Ok,
        irrefutable(steps, h),
    ensures
        i <= steps.len() ==> h.phases[i] is Running,
        i == steps.len() + 1 ==> h.phases[i] is Committing && h.requests[i] is Commit,
    decreases i,
{
    let p = i - 1;
    lemma_standing(End::Commit, steps, h, p);
    assert(follows(End::Commit, h.phases[p], h.replies[p], h.phases[p + 1], h.requests[p + 1]));
    if p == 0 {
        if steps.len() > 0 {
            assert(steps[0] is Run);
        }
    } else {
        lemma_unrefused(steps, h, p);
        assert(steps[p - 1] is Run);
        if p < steps.len() {
            assert(steps.skip(p)[0] == steps[p]);
            assert(steps[p] is Run);
        }
    }
}

/// A scope that may begin, whose steps all run statements whose replies can only
/// be accepted, and whose end is to commit, requests the commit; it has
/// committed once that succeeds.
pub proof fn law_unrefused_scope_commits<C: Check>(steps: Seq<Step<C>>, h: History<C>)
    requires
        is_history(End::Commit, steps, h),
        h.replies.len() >= steps.len() + 2,
        h.replies[0] is Ok,
        irrefutable(steps, h),
    ensures
        h.requests[steps.len() as int + 1] is Commit,
        h.replies[steps.len() as int + 1] is Ok ==> h.phases[steps.len() as int + 2] == Phase::<
            C,
        >::Closed(Ending::Committed),
{
    let n = steps.len() as int;
    lemma_unrefused(steps, h, n + 1);
    let p = n + 1;
    assert(follows(End::Commit, h.phases[p], h.replies[p], h.phases[p + 1], h.requests[p + 1]));
}

/// Nothing is requested after a rollback.
pub proof fn law_rollback_is_final<C: Check>(
    end: End,
    steps: Seq<Step<C>>,
    h: History<C>,
    j: int,
    k: int,
)
    requires
        is_history(end, steps, h),
        0 <= j < k <= h.replies.len(),
        h.requests[j] is Rollback,
    ensures
        h.requests[k] is Stop,
{
    lemma_standing(end, steps, h, j);
    lemma_standing(end, steps, h, j + 1);
    lemma_standing(end, steps, h, k);
    assert(follows(end, h.phases[j], h.replies[j], h.phases[j + 1], h.requests[j + 1]));
    lemma_stays_closed(end, steps, h, j + 1, k);
}

proof fn lemma_stays_closed<C: Check>(
    end: End,
    steps: Seq<Step<C>>,
    h: History<C>,
    j: int,
    k: int,
)
    requires
        is_history(end, steps, h),
        1 <= j <= k <= h.replies.len(),
        h.phases[j] is Closed,
        h.requests[j] is Stop,
    ensures
        h.phases[k] is Closed,
        h.requests[k] is Stop,
    decreases k,
{
    if j < k {
        lemma_stays_closed(end, steps, h, j, k - 1);
        let p = k - 1;
        assert(follows(end, h.phases[p], h.replies[p], h.phases[p + 1], h.requests[p + 1]));
    }
}

/// Whether each of the first `n` steps runs a statement whose reply its check can
/// only accept.
pub open spec fn irrefutable_up_to<C: Check>(steps: Seq<Step<C>>, h: History<C>, n: int) -> bool {
    forall|k: int|
        0 <= k < n ==> (#[trigger] steps[k] matches Step::Run { check, .. } && cannot_refuse(
            check,
            h.replies[k + 1],
        ))
}

/// A scope that began and whose first `n` replies can only be accepted comes to
/// the next step: it runs its statement, or rolls back if the step refuses. After
/// the last step it requests its end.
pub proof fn law_accepted_steps_go_on<C: Check>(
    end: End,
    steps: Seq<Step<C>>,
    h: History<C>,
    n: int,
)
    requires
        is_history(end, steps, h),
        0 <= n <= steps.len(),
        h.replies.len() > n,
        h.replies[0] is Ok,
        irrefutable_up_to(steps, h, n),
    ensures
        n < steps.len() ==> match steps[n] {
            Step::Run { statement, check } => {
                &&& h.phases[n + 1] matches Phase::Running { check: with, .. }
                &&& with == check
                &&& h.requests[n + 1] == Request::Run(statement)
            },
            Step::Refuse(fault) => {
                &&& h.phases[n + 1] == Phase::<C>::RollingBack(Err(fault))
                &&& h.requests[n + 1] is Rollback
            },
        },
        n == steps.len() ==> match end {
            End::Commit => h.phases[n + 1] is Committing && h.requests[n + 1] is Commit,
            End::Rollback => (h.phases[n + 1] matches Phase::RollingBack(Ok(_)))
                && h.requests[n + 1] is Rollback,
        },
    decreases n,
{
    lemma_standing(end, steps, h, n);
    assert(follows(end, h.phases[n], h.replies[n], h.phases[n + 1], h.requests[n + 1]));
    if n > 0 {
        law_accepted_steps_go_on(end, steps, h, n - 1);
        assert(steps[n - 1] is Run);
        if n < steps.len() {
            assert(steps.skip(n)[0] == steps[n]);
        }
    }
}

/// The first refused reply is the outcome of its scope: the rollback is
/// requested, and once that is answered the scope has closed.
pub proof fn law_first_refusal_is_the_outcome<C: Check>(
    end: End,
    steps: Seq<Step<C>>,
    h: History<C>,
    n: int,
    check: C,
)
    requires
        is_history(end, steps, h),
        0 <= n < steps.len(),
        h.replies.len() > n + 2,
        h.replies[0] is Ok,
        irrefutable_up_to(steps, h, n),
        steps[n] matches Step::Run { check: with, .. } && with == check,
        !takes(check, h.replies[n + 1]),
    ensures
        h.requests[n + 2] is Rollback,
        h.phases[n + 3] matches Phase::Closed(Ending::RolledBack { outcome, rollback }) && (outcome
            matches Err(fault) && check.judged(h.replies[n + 1], Err::<bool, C::Fault>(fault)))
            && rollback == acknowledged(h.replies[n + 2]),
{
    law_accepted_steps_go_on(end, steps, h, n);
    assert(h.requests[n + 1] is Run);
    assert(steps[(n + 1) - 1] == steps[n]);
    law_refused_reply_is_the_last(end, steps, h, n + 1);
    let p = n + 2;
    assert(follows(end, h.phases[p], h.replies[p], h.phases[p + 1], h.requests[p + 1]));
}

/// A scope that has closed stays closed as it is.
pub proof fn law_closed_scope_stays<C: Check>(
    end: End,
    steps: Seq<Step<C>>,
    h: History<C>,
    i: int,
    k: int,
)
    requires
        is_history(end, steps, h),
        0 <= i <= k <= h.replies.len(),
        h.phases[i] is Closed,
    ensures
        h.phases[k] == h.phases[i],
    decreases k - i,
{
    if i < k {
        law_closed_scope_stays(end, steps, h, i, k - 1);
        let p = k - 1;
        assert(follows(end, h.phases[p], h.replies[p], h.phases[p + 1], h.requests[p + 1]));
    }
}

/// Whether an engine that held `pre` and answered `request` with `reply` may hold
/// `post`: a begin that fails and a request for nothing change nothing, and a
/// rollback that succeeds restores what was held at `outset`, before the begin.
pub open spec fn restores<S>(request: Request, reply: Reply, outset: S, pre: S, post: S) -> bool {
    match request {
        Request::Begin(_) => reply is Err ==> post == pre,
        Request::Rollback | Request::UndoCommit => reply is Ok ==> post == outset,
        Request::Stop => post == pre,
        Request::Run(_) | Request::Commit => true,
    }
}

/// Whether `held` is what an engine with transactions may hold along `h`: its
/// schema and rows and whether a transaction is open. `held[i]` is what it holds
/// when `requests[i]` is made.
pub open spec fn transactional<C: Check, S>(h: History<C>, held: Seq<S>) -> bool {
    &&& held.len() == h.requests.len()
    &&& forall|i: int|
        0 <= i < h.replies.len() ==> #[trigger] restores(
            h.requests[i],
            h.replies[i],
            held[0],
            held[i],
            held[i + 1],
        )
}

/// Whether a scope ended without a commit and without a rollback that failed.
pub open spec fn undone<F>(ending: Ending<F>) -> bool {
    match ending {
        Ending::NotBegun(_) => true,
        Ending::Committed => false,
        Ending::CommitFailed { rollback, .. } => rollback is Ok,
        Ending::RolledBack { rollback, .. } => rollback is Ok,
    }
}

/// A scope that ends without a commit and without a failed rollback leaves no
/// trace: an engine with transactions then holds what it held before the begin.
pub proof fn law_undone_scope_leaves_no_trace<C: Check, S>(
    end: End,
    steps: Seq<Step<C>>,
    h: History<C>,
    held: Seq<S>,
    i: int,
)
    requires
        is_history(end, steps, h),
        transactional(h, held),
        0 <= i <= h.replies.len(),
        h.phases[i] matches Phase::Closed(ending) && undone(ending),
    ensures
        held[i] == held[0],
    decreases i,
{
    if i > 0 {
        let p = i - 1;
        lemma_standing(end, steps, h, p);
        assert(follows(end, h.phases[p], h.replies[p], h.phases[p + 1], h.requests[p + 1]));
        assert(restores(h.requests[p], h.replies[p], held[0], held[p], held[p + 1]));
        if h.phases[p] is Closed {
            law_undone_scope_leaves_no_trace(end, steps, h, held, p);
        }
    }
}

/// Every scope closes: after as many replies as it has steps, and three more,
/// it requests nothing.
pub proof fn law_scope_closes<C: Check>(end: End, steps: Seq<Step<C>>, h: History<C>)
    requires
        is_history(end, steps, h),
        h.replies.len() >= steps.len() + 3,
    ensures
        h.phases[h.replies.len() as int] is Closed,
{
    lemma_standing(end, steps, h, h.replies.len() as int);
}

/// The course of a sequence outside any transaction: where it stood, and what
/// was replied there.
pub struct Course<C: Check> {
    pub progresses: Seq<Progress<C>>,
    pub replies: Seq<Reply>,
}

/// Whether a sequence that stands at `pre` goes to `post` when `reply` comes
/// back.
pub open spec fn goes_on<C: Check>(pre: Progress<C>, reply: Reply, post: Progress<C>) -> bool {
    pre matches Progress::Ask { check, rest, .. } && answered(
        rest.steps(),
        rest.complete(),
        check,
        reply,
        post,
    )
}

/// Whether `c` is the course of a sequence that begins with `steps`.
pub open spec fn is_course<C: Check>(steps: Seq<Step<C>>, c: Course<C>) -> bool {
    &&& c.progresses.len() == c.replies.len() + 1
    &&& moved(steps, true, c.progresses[0])
    &&& forall|i: int|
        0 <= i < c.replies.len() ==> #[trigger] goes_on(
            c.progresses[i],
            c.replies[i],
            c.progresses[i + 1],
        )
}

/// Whether the first `n` steps were asked in order and their replies accepted.
pub open spec fn passed<C: Check>(steps: Seq<Step<C>>, c: Course<C>, n: int) -> bool {
    forall|k: int| 0 <= k < n ==> (accepts(#[trigger] steps[k], c.replies[k]) && (
    c.progresses[k] matches Progress::Ask { statement, check, .. } && steps[k] == Step::Run {
        statement,
        check,
    }))
}

spec fn reached<C: Check>(steps: Seq<Step<C>>, c: Course<C>, i: int) -> bool {
    &&& i <= steps.len()
    &&& match c.progresses[i] {
        Progress::Ask { statement, check, rest } => {
            &&& i < steps.len()
            &&& steps[i] == Step::Run { statement, check }
            &&& rest.steps() == steps.skip(i + 1)
            &&& passed(steps, c, i)
        },
        Progress::Done(outcome) => outcome is Ok ==> i == steps.len() && passed(steps, c, i),
    }
}

proof fn lemma_moved<C: Check>(
    steps: Seq<Step<C>>,
    c: Course<C>,
    i: int,
    complete: bool,
)
    requires
        0 <= i <= steps.len(),
        passed(steps, c, i),
        moved(steps.skip(i), complete, c.progresses[i]),
    ensures
        reached(steps, c, i),
{
    let rest = steps.skip(i);
    if rest.len() > 0 {
        assert(rest[0] == steps[i]);
        assert(rest.drop_first() =~= steps.skip(i + 1));
    }
}

proof fn lemma_reached<C: Check>(steps: Seq<Step<C>>, c: Course<C>, i: int)
    requires
        is_course(steps, c),
        0 <= i <= c.replies.len(),
    ensures
        reached(steps, c, i),
    decreases i,
{
    if i == 0 {
        assert(steps.skip(0) =~= steps);
        lemma_moved(steps, c, 0, true);
    } else {
        let p = i - 1;
        lemma_reached(steps, c, p);
        assert(goes_on(c.progresses[p], c.replies[p], c.progresses[p + 1]));
        if let Progress::Ask { statement, check, rest } = c.progresses[p] {
            let verdict = choose|verdict: Result<bool, C::Fault>| #[trigger]
                check.judged(c.replies[p], verdict) && match verdict {
                    Ok(present) => moved(
                        rest.steps(),
                        rest.complete() && present,
                        c.progresses[i],
                    ),
                    Err(fault) => c.progresses[i] == Progress::<C>::Done(Err(fault)),
                };
            if let Ok(present) = verdict {
                assert(takes(check, c.replies[p]));
                assert(steps.skip(i) == rest.steps());
                lemma_moved(steps, c, i, rest.complete() && present);
            }
        }
    }
}

/// A sequence that ends well has asked every step in order and had every reply
/// accepted.
pub proof fn law_finished_sequence_ran_every_step<C: Check>(
    steps: Seq<Step<C>>,
    c: Course<C>,
    complete: bool,
)
    requires
        is_course(steps, c),
        c.progresses.last() == Progress::<C>::Done(Ok(complete)),
    ensures
        c.replies.len() == steps.len(),
        passed(steps, c, steps.len() as int),
{
    lemma_reached(steps, c, c.replies.len() as int);
}

} // verus!
