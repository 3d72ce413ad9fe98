//! Opening a database: both connections get the profile of the authority, and
//! what the database records of its migrations is audited.
use crate::storage::audit::{
    audit_question, audited, database_path, records_verdict, require_path, Audit, AuditMove,
    AuditTurn, COUNT_SCHEMA_OBJECTS, MIGRATION_TABLE_EXISTS,
};
use crate::storage::ending::{after_rollback, close_read_scope};
use crate::storage::engine::{Reply, Statement, TransactionBehavior};
use crate::storage::error::{StorageError, StorageFailure};
use crate::storage::judge::{integer_answer, StorageCheck};
use crate::storage::laws::{accepts, takes};
use crate::storage::profile::{
    asserts_profile, configure_read_connection, configure_write_connection, configures_reader,
    configures_writer, lemma_profile, reports_profile,
};
use crate::storage::schema::{schema_fingerprint, CoreSchema, CORE_SCHEMA_FINGERPRINT};
use crate::storage::scope::{acknowledged, answered, moved, Check, Progress, Sequence, Step};
use vstd::prelude::*;
use vstd::string::*;

verus! {

/// What is needed next to open a database.
#[derive(Debug)]
pub enum OpenRequest {
    /// Opens the file.
    Build(String),
    /// Connects the writer.
    ConnectWriter,
    /// Runs a statement on the writer.
    Writer(Statement),
    /// Connects the reader.
    ConnectReader,
    /// Runs a statement on the reader.
    Reader(Statement),
    /// Begins the audit on the reader.
    BeginAudit(TransactionBehavior),
    /// Asks a question of the audit.
    Audit(Statement),
    /// Closes the audit.
    CloseAudit,
    /// Nothing more.
    Stop,
}

/// Where the opening of a database stands.
pub enum OpenPhase {
    Building,
    ConnectingWriter,
    ConfiguringWriter { check: StorageCheck, rest: Sequence<StorageCheck> },
    ConnectingReader,
    ConfiguringReader { check: StorageCheck, rest: Sequence<StorageCheck> },
    BeginningAudit,
    Auditing(Audit),
    ClosingAudit(Result<(), StorageError>),
    Ended(Result<(), StorageError>),
}

/// Whether the opening ended with this failure.
pub open spec fn fails(post: OpenPhase, request: OpenRequest, failure: StorageFailure) -> bool {
    &&& post matches OpenPhase::Ended(Err(error))
    &&& error@ == failure
    &&& request is Stop
}

/// Whether the opening goes on like this when the writer's configuration has
/// made `progress`.
pub open spec fn writer_proceeds(
    progress: Progress<StorageCheck>,
    post: OpenPhase,
    request: OpenRequest,
) -> bool {
    match progress {
        Progress::Ask { statement, check, rest } => {
            &&& post == OpenPhase::ConfiguringWriter { check, rest }
            &&& request == OpenRequest::Writer(statement)
        },
        Progress::Done(Ok(_)) => post is ConnectingReader && request is ConnectReader,
        Progress::Done(Err(error)) => post == OpenPhase::Ended(Err(error)) && request is Stop,
    }
}

/// Whether the opening goes on like this when the reader's configuration has
/// made `progress`.
pub open spec fn reader_proceeds(
    progress: Progress<StorageCheck>,
    post: OpenPhase,
    request: OpenRequest,
) -> bool {
    match progress {
        Progress::Ask { statement, check, rest } => {
            &&& post == OpenPhase::ConfiguringReader { check, rest }
            &&& request == OpenRequest::Reader(statement)
        },
        Progress::Done(Ok(_)) => post is BeginningAudit && request
            == OpenRequest::BeginAudit(TransactionBehavior::Deferred),
        Progress::Done(Err(error)) => post == OpenPhase::Ended(Err(error)) && request is Stop,
    }
}

/// Whether the opening goes on like this when the audit makes a move.
pub open spec fn audit_proceeds(move_: AuditMove, post: OpenPhase, request: OpenRequest) -> bool {
    match move_ {
        AuditMove::Ask(asked, next) => {
            &&& post == OpenPhase::Auditing(next)
            &&& request matches OpenRequest::Audit(statement)
            &&& statement@ == asked
        },
        AuditMove::Done(verdict) => {
            &&& post matches OpenPhase::ClosingAudit(outcome)
            &&& match outcome {
                Ok(_) => verdict is Ok,
                Err(error) => verdict == Err::<(), StorageFailure>(error@),
            }
            &&& request is CloseAudit
        },
    }
}

/// Whether an opening that stands at `pre` and gets `reply` goes to `post` and
/// needs `request`.
pub open spec fn opens(
    pre: OpenPhase,
    reply: Reply,
    post: OpenPhase,
    request: OpenRequest,
) -> bool {
    match pre {
        OpenPhase::Building => match reply {
            Err(error) => fails(post, request, StorageFailure::Turso(error@)),
            Ok(_) => post is ConnectingWriter && request is ConnectWriter,
        },
        OpenPhase::ConnectingWriter => match reply {
            Err(error) => fails(post, request, StorageFailure::Turso(error@)),
            Ok(_) => exists|sequence: Sequence<StorageCheck>, progress: Progress<StorageCheck>| #[trigger]
                moved(sequence.steps(), true, progress) && configures_writer(sequence.steps())
                    && writer_proceeds(progress, post, request),
        },
        OpenPhase::ConfiguringWriter { check, rest } => exists|
            progress: Progress<StorageCheck>,
        | #[trigger]
            answered(rest.steps(), rest.complete(), check, reply, progress) && writer_proceeds(
                progress,
                post,
                request,
            ),
        OpenPhase::ConnectingReader => match reply {
            Err(error) => fails(post, request, StorageFailure::Turso(error@)),
            Ok(_) => exists|sequence: Sequence<StorageCheck>, progress: Progress<StorageCheck>| #[trigger]
                moved(sequence.steps(), true, progress) && configures_reader(sequence.steps())
                    && reader_proceeds(progress, post, request),
        },
        OpenPhase::ConfiguringReader { check, rest } => exists|
            progress: Progress<StorageCheck>,
        | #[trigger]
            answered(rest.steps(), rest.complete(), check, reply, progress) && reader_proceeds(
                progress,
                post,
                request,
            ),
        OpenPhase::BeginningAudit => match reply {
            Err(error) => fails(post, request, StorageFailure::Turso(error@)),
            Ok(_) => audit_proceeds(
                AuditMove::Ask(audit_question(Audit::TableExists), Audit::TableExists),
                post,
                request,
            ),
        },
        OpenPhase::Auditing(stage) => audit_proceeds(audited(stage, reply), post, request),
        OpenPhase::ClosingAudit(outcome) => {
            &&& post matches OpenPhase::Ended(result)
            &&& match result {
                Ok(_) => after_rollback(outcome, acknowledged(reply)) is Ok,
                Err(error) => after_rollback(outcome, acknowledged(reply)) == Err::<
                    (),
                    StorageFailure,
                >(error@),
            }
            &&& request is Stop
        },
        OpenPhase::Ended(_) => post == pre && request is Stop,
    }
}

/// A database that is being opened.
pub struct Opening {
    pub phase: OpenPhase,
}

/// What keeps a database from being opened before the engine is asked anything:
/// an empty path, or a schema with the wrong fingerprint.
pub open spec fn opening_fault(path: Seq<char>, core_schema: Seq<char>) -> Option<StorageFailure> {
    match database_path(path) {
        Err(failure) => Some(failure),
        Ok(_) => if schema_fingerprint(core_schema) == CORE_SCHEMA_FINGERPRINT@ {
            None
        } else {
            Some(
                StorageFailure::EmbeddedSchemaFingerprint {
                    expected: CORE_SCHEMA_FINGERPRINT@,
                    computed: schema_fingerprint(core_schema),
                },
            )
        },
    }
}

impl Opening {
    /// Begins to open a database whose schema is to be `core_schema`.
    pub fn open(path: &str, core_schema: String) -> (r: Result<
        (CoreSchema, Opening, OpenRequest),
        StorageError,
    >)
        ensures
            match r {
                Ok(begun) => {
                    &&& opening_fault(path@, core_schema@) is None
                    &&& begun.0.text() == core_schema@
                    &&& begun.1.phase is Building
                    &&& begun.2 matches OpenRequest::Build(trimmed)
                    &&& database_path(path@) == Ok::<Seq<char>, StorageFailure>(trimmed@)
                },
                Err(error) => opening_fault(path@, core_schema@) == Some(error@),
            },
    {
        match require_path(path) {
            Err(error) => Err(error),
            Ok(trimmed) => match CoreSchema::checked(core_schema) {
                Err(error) => Err(error),
                Ok(schema) => Ok(
                    (schema, Opening { phase: OpenPhase::Building }, OpenRequest::Build(trimmed)),
                ),
            },
        }
    }

    fn at(phase: OpenPhase, request: OpenRequest) -> (r: (Opening, OpenRequest))
        ensures
            r.0.phase == phase,
            r.1 == request,
    {
        (Opening { phase }, request)
    }

    fn writer(progress: Progress<StorageCheck>) -> (r: (Opening, OpenRequest))
        ensures
            writer_proceeds(progress, r.0.phase, r.1),
    {
        match progress {
            Progress::Ask { statement, check, rest } => Opening::at(
                OpenPhase::ConfiguringWriter { check, rest },
                OpenRequest::Writer(statement),
            ),
            Progress::Done(Ok(_)) => Opening::at(
                OpenPhase::ConnectingReader,
                OpenRequest::ConnectReader,
            ),
            Progress::Done(Err(error)) => Opening::at(
                OpenPhase::Ended(Err(error)),
                OpenRequest::Stop,
            ),
        }
    }

    fn reader(progress: Progress<StorageCheck>) -> (r: (Opening, OpenRequest))
        ensures
            reader_proceeds(progress, r.0.phase, r.1),
    {
        match progress {
            Progress::Ask { statement, check, rest } => Opening::at(
                OpenPhase::ConfiguringReader { check, rest },
                OpenRequest::Reader(statement),
            ),
            Progress::Done(Ok(_)) => Opening::at(
                OpenPhase::BeginningAudit,
                OpenRequest::BeginAudit(TransactionBehavior::Deferred),
            ),
            Progress::Done(Err(error)) => Opening::at(
                OpenPhase::Ended(Err(error)),
                OpenRequest::Stop,
            ),
        }
    }

    fn audit(turn: AuditTurn) -> (r: (Opening, OpenRequest))
        ensures
            audit_proceeds(turn@, r.0.phase, r.1),
    {
        match turn {
            AuditTurn::Ask { statement, next } => Opening::at(
                OpenPhase::Auditing(next),
                OpenRequest::Audit(statement),
            ),
            AuditTurn::Done(verdict) => Opening::at(
                OpenPhase::ClosingAudit(verdict),
                OpenRequest::CloseAudit,
            ),
        }
    }

    /// Takes the reply to the last request.
    pub fn step(self, reply: Reply) -> (r: (Opening, OpenRequest))
        ensures
            opens(self.phase, reply, r.0.phase, r.1),
    {
        match self.phase {
            OpenPhase::Building => match reply {
                Err(error) => Opening::at(
                    OpenPhase::Ended(Err(StorageError::Turso(error))),
                    OpenRequest::Stop,
                ),
                Ok(_) => Opening::at(OpenPhase::ConnectingWriter, OpenRequest::ConnectWriter),
            },
            OpenPhase::ConnectingWriter => match reply {
                Err(error) => Opening::at(
                    OpenPhase::Ended(Err(StorageError::Turso(error))),
                    OpenRequest::Stop,
                ),
                Ok(_) => {
                    let sequence = configure_write_connection();
                    let ghost steps = sequence;
                    let progress = sequence.next();
                    assert(moved(steps.steps(), true, progress));
                    Opening::writer(progress)
                },
            },
            OpenPhase::ConfiguringWriter { check, rest } => {
                let progress = rest.answer(check, reply);
                Opening::writer(progress)
            },
            OpenPhase::ConnectingReader => match reply {
                Err(error) => Opening::at(
                    OpenPhase::Ended(Err(StorageError::Turso(error))),
                    OpenRequest::Stop,
                ),
                Ok(_) => {
                    let sequence = configure_read_connection();
                    let ghost steps = sequence;
                    let progress = sequence.next();
                    assert(moved(steps.steps(), true, progress));
                    Opening::reader(progress)
                },
            },
            OpenPhase::ConfiguringReader { check, rest } => {
                let progress = rest.answer(check, reply);
                Opening::reader(progress)
            },
            OpenPhase::BeginningAudit => match reply {
                Err(error) => Opening::at(
                    OpenPhase::Ended(Err(StorageError::Turso(error))),
                    OpenRequest::Stop,
                ),
                Ok(_) => Opening::audit(Audit::validate_existing_migrations()),
            },
            OpenPhase::Auditing(stage) => Opening::audit(stage.answer(reply)),
            OpenPhase::ClosingAudit(outcome) => {
                let close = match reply {
                    Ok(_) => Ok(()),
                    Err(error) => Err(error),
                };
                Opening::at(
                    OpenPhase::Ended(close_read_scope(outcome, close)),
                    OpenRequest::Stop,
                )
            },
            OpenPhase::Ended(result) => Opening::at(OpenPhase::Ended(result), OpenRequest::Stop),
        }
    }
}

/// A history of an opening: where it stood, what it needed there, and what was
/// replied.
pub struct OpenHistory {
    pub phases: Seq<OpenPhase>,
    pub requests: Seq<OpenRequest>,
    pub replies: Seq<Reply>,
}

/// Whether `h` is a history of an opening.
pub open spec fn is_opening(h: OpenHistory) -> bool {
    &&& h.phases.len() == h.replies.len() + 1
    &&& h.requests.len() == h.replies.len() + 1
    &&& h.phases[0] is Building
    &&& h.requests[0] is Build
    &&& forall|i: int|
        0 <= i < h.replies.len() ==> #[trigger] opens(
            h.phases[i],
            h.replies[i],
            h.phases[i + 1],
            h.requests[i + 1],
        )
}

/// Whether the audit of the migrations, asked at places 22 and 23, found nothing
/// wrong.
pub open spec fn audit_passed(h: OpenHistory) -> bool {
    match integer_answer(MIGRATION_TABLE_EXISTS@, h.replies[22]) {
        Err(_) => false,
        Ok(recorded) => if recorded == 0 {
            integer_answer(COUNT_SCHEMA_OBJECTS@, h.replies[23]) == Ok::<i64, StorageFailure>(0)
        } else {
            records_verdict(h.replies[23]) is Ok
        },
    }
}

/// Whether `request` is the statement of `step`, on the writer or on the reader.
pub open spec fn wants(step: Step<StorageCheck>, request: OpenRequest, on_writer: bool) -> bool {
    match step {
        Step::Run { statement, .. } => request == if on_writer {
            OpenRequest::Writer(statement)
        } else {
            OpenRequest::Reader(statement)
        },
        Step::Refuse(_) => false,
    }
}

/// Whether the first `n` of `steps` were asked from place `from` on, and their
/// replies accepted.
pub open spec fn ran(
    h: OpenHistory,
    steps: Seq<Step<StorageCheck>>,
    from: int,
    n: int,
    on_writer: bool,
) -> bool {
    forall|k: int|
        0 <= k < n ==> accepts(#[trigger] steps[k], h.replies[k + from]) && wants(
            steps[k],
            h.requests[k + from],
            on_writer,
        )
}

/// Whether step `j` of `steps` is asked at place `j + from` and everything before
/// it ran.
pub open spec fn configured(
    h: OpenHistory,
    steps: Seq<Step<StorageCheck>>,
    from: int,
    j: int,
    on_writer: bool,
    check: StorageCheck,
    rest: Sequence<StorageCheck>,
) -> bool {
    &&& steps.len() == 9
    &&& 0 <= j < 9
    &&& steps[j] matches Step::Run { check: with, .. }
    &&& with == check
    &&& wants(steps[j], h.requests[j + from], on_writer)
    &&& rest.steps() == steps.skip(j + 1)
    &&& ran(h, steps, from, j, on_writer)
}

/// Whether the writer is being configured at place `i`.
pub open spec fn writer_at(
    h: OpenHistory,
    i: int,
    check: StorageCheck,
    rest: Sequence<StorageCheck>,
) -> bool {
    exists|steps: Seq<Step<StorageCheck>>|
        configures_writer(steps) && #[trigger] configured(h, steps, 2, i - 2, true, check, rest)
}

/// Whether the reader is being configured at place `i`.
pub open spec fn reader_at(
    h: OpenHistory,
    i: int,
    check: StorageCheck,
    rest: Sequence<StorageCheck>,
) -> bool {
    exists|steps: Seq<Step<StorageCheck>>|
        configures_reader(steps) && #[trigger] configured(h, steps, 12, i - 12, false, check, rest)
}

/// Whether the writer was configured.
pub open spec fn writer_done(h: OpenHistory) -> bool {
    exists|steps: Seq<Step<StorageCheck>>|
        configures_writer(steps) && #[trigger] ran(h, steps, 2, 9, true)
}

/// Whether the reader was connected and configured.
pub open spec fn reader_done(h: OpenHistory) -> bool {
    &&& h.requests[11] is ConnectReader
    &&& exists|steps: Seq<Step<StorageCheck>>|
        configures_reader(steps) && #[trigger] ran(h, steps, 12, 9, false)
}

/// Whether the audit asks the question of `stage` at place `i`.
pub open spec fn audits(h: OpenHistory, stage: Audit, i: int) -> bool {
    h.requests[i] matches OpenRequest::Audit(statement) && statement@ == audit_question(stage)
}

/// Whether the audit asked its two questions and found nothing wrong.
pub open spec fn audit_done(h: OpenHistory) -> bool {
    &&& audit_passed(h)
    &&& audits(h, Audit::TableExists, 22)
    &&& if integer_answer(MIGRATION_TABLE_EXISTS@, h.replies[22]) == Ok::<i64, StorageFailure>(0) {
        audits(h, Audit::SchemaObjects, 23)
    } else {
        audits(h, Audit::Records, 23)
    }
}

/// What holds where an opening stands at place `i`.
pub open spec fn stands(h: OpenHistory, i: int) -> bool {
    match h.phases[i] {
        OpenPhase::Building => i == 0,
        OpenPhase::ConnectingWriter => i == 1 && h.requests[1] is ConnectWriter,
        OpenPhase::ConfiguringWriter { check, rest } => {
            &&& 2 <= i <= 10
            &&& writer_at(h, i, check, rest)
        },
        OpenPhase::ConnectingReader => {
            &&& i == 11
            &&& writer_done(h)
            &&& h.requests[11] is ConnectReader
        },
        OpenPhase::ConfiguringReader { check, rest } => {
            &&& 12 <= i <= 20
            &&& writer_done(h)
            &&& h.requests[11] is ConnectReader
            &&& reader_at(h, i, check, rest)
        },
        OpenPhase::BeginningAudit => {
            &&& i == 21
            &&& writer_done(h)
            &&& reader_done(h)
            &&& h.requests[21] == OpenRequest::BeginAudit(TransactionBehavior::Deferred)
        },
        OpenPhase::Auditing(stage) => {
            &&& writer_done(h)
            &&& reader_done(h)
            &&& h.requests[21] == OpenRequest::BeginAudit(TransactionBehavior::Deferred)
            &&& audits(h, Audit::TableExists, 22)
            &&& audits(h, stage, i)
            &&& match stage {
                Audit::TableExists => i == 22,
                Audit::SchemaObjects => i == 23 && integer_answer(
                    MIGRATION_TABLE_EXISTS@,
                    h.replies[22],
                ) == Ok::<i64, StorageFailure>(0),
                Audit::Records => i == 23 && (integer_answer(
                    MIGRATION_TABLE_EXISTS@,
                    h.replies[22],
                ) matches Ok(recorded) && recorded != 0),
            }
        },
        OpenPhase::ClosingAudit(outcome) => h.requests[i] is CloseAudit && (outcome is Ok ==> {
            &&& i == 24
            &&& writer_done(h)
            &&& reader_done(h)
            &&& h.requests[21] == OpenRequest::BeginAudit(TransactionBehavior::Deferred)
            &&& audit_done(h)
        }),
        OpenPhase::Ended(result) => h.requests[i] is Stop && (result is Ok ==> {
            &&& i >= 25
            &&& writer_done(h)
            &&& reader_done(h)
            &&& h.requests[21] == OpenRequest::BeginAudit(TransactionBehavior::Deferred)
            &&& audit_done(h)
            &&& h.requests[24] is CloseAudit
            &&& h.replies[24] is Ok
        }),
    }
}

proof fn lemma_next_step(
    steps: Seq<Step<StorageCheck>>,
    j: int,
    complete: bool,
    progress: Progress<StorageCheck>,
)
    requires
        steps.len() == 9,
        0 <= j <= 9,
        moved(steps.skip(j), complete, progress),
    ensures
        match progress {
            Progress::Ask { statement, check, rest } => {
                &&& j < 9
                &&& steps[j] == Step::Run { statement, check }
                &&& rest.steps() == steps.skip(j + 1)
            },
            Progress::Done(outcome) => outcome is Ok ==> j == 9,
        },
{
    let rest = steps.skip(j);
    if rest.len() > 0 {
        assert(rest[0] == steps[j]);
        assert(rest.drop_first() =~= steps.skip(j + 1));
    }
}

proof fn lemma_answered_step(
    h: OpenHistory,
    steps: Seq<Step<StorageCheck>>,
    from: int,
    j: int,
    on_writer: bool,
    check: StorageCheck,
    rest: Sequence<StorageCheck>,
    progress: Progress<StorageCheck>,
)
    requires
        configured(h, steps, from, j, on_writer, check, rest),
        answered(rest.steps(), rest.complete(), check, h.replies[j + from], progress),
    ensures
        progress !is Done || progress->Done_0 is Ok ==> ran(h, steps, from, j + 1, on_writer),
        match progress {
            Progress::Ask { statement, check, rest } => {
                &&& j < 8
                &&& steps[j + 1] == Step::Run { statement, check }
                &&& rest.steps() == steps.skip(j + 2)
            },
            Progress::Done(outcome) => outcome is Ok ==> j == 8,
        },
{
    let reply = h.replies[j + from];
    let verdict = choose|verdict: Result<bool, StorageError>| #[trigger]
        check.judged(reply, verdict) && match verdict {
            Ok(present) => moved(rest.steps(), rest.complete() && present, progress),
            Err(fault) => progress == Progress::<StorageCheck>::Done(Err(fault)),
        };
    if let Ok(present) = verdict {
        assert(takes(check, reply));
        assert forall|k: int| 0 <= k < j + 1 implies accepts(
            #[trigger] steps[k],
            h.replies[k + from],
        ) && wants(steps[k], h.requests[k + from], on_writer) by {
            if k == j {
                assert(accepts(steps[j], reply));
            }
        }
        lemma_next_step(steps, j + 1, rest.complete() && present, progress);
    }
}

proof fn lemma_reported(
    h: OpenHistory,
    steps: Seq<Step<StorageCheck>>,
    from: int,
    on_writer: bool,
    query_only: bool,
)
    requires
        steps.len() == 9,
        asserts_profile(steps.skip(4), query_only),
        from == 2 || from == 12,
        from + 9 <= h.replies.len(),
        ran(h, steps, from, 9, on_writer),
    ensures
        reports_profile(h.replies.subrange(from + 4, from + 9), query_only),
{
    let asserted = steps.skip(4);
    let replies = h.replies.subrange(from + 4, from + 9);
    assert forall|k: int| 0 <= k < 5 implies accepts(#[trigger] asserted[k], replies[k]) by {
        assert(asserted[k] == steps[k + 4]);
        assert(replies[k] == h.replies[(k + 4) + from]);
    }
    lemma_profile(asserted, replies, query_only);
}

/// An opening stands where the phases say it does.
pub proof fn lemma_stands(h: OpenHistory, i: int)
    requires
        is_opening(h),
        0 <= i <= h.replies.len(),
    ensures
        stands(h, i),
    decreases i,
{
    if i > 0 {
        let p = i - 1;
        lemma_stands(h, p);
        assert(opens(h.phases[p], h.replies[p], h.phases[p + 1], h.requests[p + 1]));
        match h.phases[p] {
            OpenPhase::ConnectingWriter => {
                if h.replies[p] is Ok {
                    let (sequence, progress) = choose|
                        sequence: Sequence<StorageCheck>,
                        progress: Progress<StorageCheck>,
                    | #[trigger]
                        moved(sequence.steps(), true, progress) && configures_writer(
                            sequence.steps(),
                        ) && writer_proceeds(progress, h.phases[i], h.requests[i]);
                    let steps = sequence.steps();
                    assert(steps.skip(0) =~= steps);
                    lemma_next_step(steps, 0, true, progress);
                    if let Progress::Ask { statement, check, rest } = progress {
                        assert(configured(h, steps, 2, i - 2, true, check, rest));
                        assert(writer_at(h, i, check, rest));
                    }
                }
            },
            OpenPhase::ConfiguringWriter { check, rest } => {
                let steps = choose|steps: Seq<Step<StorageCheck>>|
                    configures_writer(steps) && #[trigger] configured(
                        h,
                        steps,
                        2,
                        p - 2,
                        true,
                        check,
                        rest,
                    );
                let progress = choose|progress: Progress<StorageCheck>| #[trigger]
                    answered(rest.steps(), rest.complete(), check, h.replies[p], progress)
                        && writer_proceeds(progress, h.phases[i], h.requests[i]);
                lemma_answered_step(h, steps, 2, p - 2, true, check, rest, progress);
                if let Progress::Ask { statement, check: then, rest: after } = progress {
                    assert(configured(h, steps, 2, i - 2, true, then, after));
                    assert(writer_at(h, i, then, after));
                }
                if let Progress::Done(Ok(_)) = progress {
                    assert(ran(h, steps, 2, 9, true));
                }
            },
            OpenPhase::ConnectingReader => {
                if h.replies[p] is Ok {
                    let (sequence, progress) = choose|
                        sequence: Sequence<StorageCheck>,
                        progress: Progress<StorageCheck>,
                    | #[trigger]
                        moved(sequence.steps(), true, progress) && configures_reader(
                            sequence.steps(),
                        ) && reader_proceeds(progress, h.phases[i], h.requests[i]);
                    let steps = sequence.steps();
                    assert(steps.skip(0) =~= steps);
                    lemma_next_step(steps, 0, true, progress);
                    if let Progress::Ask { statement, check, rest } = progress {
                        assert(configured(h, steps, 12, i - 12, false, check, rest));
                        assert(reader_at(h, i, check, rest));
                    }
                }
            },
            OpenPhase::ConfiguringReader { check, rest } => {
                let steps = choose|steps: Seq<Step<StorageCheck>>|
                    configures_reader(steps) && #[trigger] configured(
                        h,
                        steps,
                        12,
                        p - 12,
                        false,
                        check,
                        rest,
                    );
                let progress = choose|progress: Progress<StorageCheck>| #[trigger]
                    answered(rest.steps(), rest.complete(), check, h.replies[p], progress)
                        && reader_proceeds(progress, h.phases[i], h.requests[i]);
                lemma_answered_step(h, steps, 12, p - 12, false, check, rest, progress);
                if let Progress::Ask { statement, check: then, rest: after } = progress {
                    assert(configured(h, steps, 12, i - 12, false, then, after));
                    assert(reader_at(h, i, then, after));
                }
                if let Progress::Done(Ok(_)) = progress {
                    assert(ran(h, steps, 12, 9, false));
                }
            },
            _ => {},
        }
    }
}

/// A database that was opened reported the profile of the authority on both
/// connections, its reader refuses to write, its migrations passed the audit,
/// and the audit's transaction was closed. Everything else fails.
pub proof fn law_opened_database_was_checked(h: OpenHistory, i: int)
    requires
        is_opening(h),
        0 <= i <= h.replies.len(),
        h.phases[i] matches OpenPhase::Ended(Ok(_)),
    ensures
        i >= 25,
        reports_profile(h.replies.subrange(6, 11), false),
        reports_profile(h.replies.subrange(16, 21), true),
        audit_passed(h),
        h.replies[24] is Ok,
{
    lemma_stands(h, i);
    let written = choose|steps: Seq<Step<StorageCheck>>|
        configures_writer(steps) && #[trigger] ran(h, steps, 2, 9, true);
    lemma_reported(h, written, 2, true, false);
    let read = choose|steps: Seq<Step<StorageCheck>>|
        configures_reader(steps) && #[trigger] ran(h, steps, 12, 9, false);
    lemma_reported(h, read, 12, false, true);
}

/// The opening of a database ends after 25 replies at most.
pub proof fn law_opening_ends(h: OpenHistory)
    requires
        is_opening(h),
        h.replies.len() >= 25,
    ensures
        h.phases[h.replies.len() as int] is Ended,
{
    lemma_closing(h, h.replies.len() as int);
}

proof fn lemma_closing(h: OpenHistory, i: int)
    requires
        is_opening(h),
        0 <= i <= h.replies.len(),
    ensures
        i >= 25 ==> h.phases[i] is Ended,
        h.phases[i] is ClosingAudit ==> i <= 24,
    decreases i,
{
    lemma_stands(h, i);
    if i > 0 {
        let p = i - 1;
        lemma_closing(h, p);
        lemma_stands(h, p);
        assert(opens(h.phases[p], h.replies[p], h.phases[p + 1], h.requests[p + 1]));
    }
}

} // verus!
