//! What the opening of a database does to its connections.
use crate::letters::{alike, lemma_lowered};
use crate::storage::audit::{law_records_accepted, records_core, records_verdict, Audit};
use crate::storage::engine::{EngineError, Reply, Statement, TransactionBehavior};
use crate::storage::error::StorageError;
use crate::storage::judge::{storage_verdict, StorageCheck};
use crate::storage::judging::{gives_number, gives_text, same_failure, says_both, says_engine};
use crate::storage::laws::accepts;
use crate::storage::migrating::{is_core, shows, shows_record, Shown};
use crate::storage::opening::{
    audit_done, configured, is_opening, law_opened_database_was_checked, law_opening_ends,
    lemma_stands, opens, ran, reader_proceeds, wants, writer_proceeds, OpenHistory, OpenPhase,
    OpenRequest, Opening,
};
use crate::storage::profile::{
    asserts_profile, configures_reader, configures_writer, reports_profile,
};
use crate::storage::schema::CoreSchema;
use crate::storage::scope::{answered, moved, Progress, Sequence, Step};
use crate::text::lower_text;
use vstd::prelude::*;
use vstd::string::*;

verus! {

/// The settings of a connection.
pub struct Settings {
    pub synchronous: i64,
    pub foreign_keys: i64,
    pub busy_timeout: i64,
    pub query_only: i64,
}

/// The journal mode of a database and the settings of its two connections.
pub struct Tuned {
    pub journal_mode: Seq<char>,
    pub writer: Settings,
    pub reader: Settings,
}

/// The settings of a connection after a statement took effect on it.
pub open spec fn adjusted(settings: Settings, statement: Statement) -> Settings {
    match statement {
        Statement::PragmaUpdate { name, value } => if name@ == "synchronous"@ && value@
            == "FULL"@ {
            Settings { synchronous: 2, ..settings }
        } else if name@ == "foreign_keys"@ && value@ == "ON"@ {
            Settings { foreign_keys: 1, ..settings }
        } else if name@ == "query_only"@ && value@ == "1"@ {
            Settings { query_only: 1, ..settings }
        } else {
            settings
        },
        Statement::BusyTimeout { millis } => Settings {
            busy_timeout: millis as i64,
            ..settings
        },
        _ => settings,
    }
}

/// The journal mode after a statement took effect.
pub open spec fn mode_after(mode: Seq<char>, statement: Statement) -> Seq<char> {
    match statement {
        Statement::PragmaUpdate { name, value } => if name@ == "journal_mode"@ && value@
            == "'wal'"@ {
            "wal"@
        } else {
            mode
        },
        _ => mode,
    }
}

/// What is held after a statement took effect on the writer or on the reader.
pub open spec fn took(held: Tuned, statement: Statement, on_writer: bool) -> Tuned {
    let journal_mode = mode_after(held.journal_mode, statement);
    if on_writer {
        Tuned { journal_mode, writer: adjusted(held.writer, statement), reader: held.reader }
    } else {
        Tuned { journal_mode, writer: held.writer, reader: adjusted(held.reader, statement) }
    }
}

/// Whether `reply` tells the setting that `statement` asks for.
pub open spec fn tells(
    mode: Seq<char>,
    settings: Settings,
    statement: Statement,
    reply: Reply,
) -> bool {
    (statement matches Statement::Query { sql, .. } && reply is Ok) ==> {
        &&& statement->Query_sql@ == "PRAGMA journal_mode"@ ==> gives_text(reply, mode)
        &&& statement->Query_sql@ == "PRAGMA synchronous"@ ==> gives_number(
            reply,
            settings.synchronous,
        )
        &&& statement->Query_sql@ == "PRAGMA foreign_keys"@ ==> gives_number(
            reply,
            settings.foreign_keys,
        )
        &&& statement->Query_sql@ == "PRAGMA busy_timeout"@ ==> gives_number(
            reply,
            settings.busy_timeout,
        )
        &&& statement->Query_sql@ == "PRAGMA query_only"@ ==> gives_number(
            reply,
            settings.query_only,
        )
    }
}

/// Whether an engine may answer `request` with `reply` and then hold `after`. It
/// may fail, and it may ignore a setting; what it tells is true. A new
/// connection admits writes.
pub open spec fn tunes(
    held: Tuned,
    shown: Shown,
    request: OpenRequest,
    reply: Reply,
    after: Tuned,
) -> bool {
    match request {
        OpenRequest::ConnectWriter => {
            &&& after.journal_mode == held.journal_mode
            &&& after.reader == held.reader
            &&& after.writer.query_only == 0
        },
        OpenRequest::ConnectReader => {
            &&& after.journal_mode == held.journal_mode
            &&& after.writer == held.writer
            &&& after.reader.query_only == 0
        },
        OpenRequest::Writer(statement) => {
            &&& tells(held.journal_mode, held.writer, statement, reply)
            &&& after == held || after == took(held, statement, true)
        },
        OpenRequest::Reader(statement) => {
            &&& tells(held.journal_mode, held.reader, statement, reply)
            &&& after == held || after == took(held, statement, false)
        },
        OpenRequest::Audit(statement) => {
            &&& after == held
            &&& reply is Ok ==> shows(shown, statement, reply)
        },
        _ => after == held,
    }
}

/// Whether the engine does what `request` asks.
pub open spec fn obeys(held: Tuned, request: OpenRequest, reply: Reply, after: Tuned) -> bool {
    &&& reply is Ok
    &&& match request {
        OpenRequest::Writer(statement) => after == took(held, statement, true),
        OpenRequest::Reader(statement) => after == took(held, statement, false),
        _ => true,
    }
}

/// Whether `h` is what comes of an opening that was begun when it is stepped with
/// each reply.
pub open spec fn opens_along(
    begun: (CoreSchema, Opening, OpenRequest),
    h: OpenHistory,
) -> bool {
    &&& h.phases.len() == h.replies.len() + 1
    &&& h.requests.len() == h.replies.len() + 1
    &&& h.phases[0] == begun.1.phase
    &&& h.requests[0] == begun.2
    &&& forall|i: int| 0 <= i < h.replies.len() ==> #[trigger] opens_at(h, i)
}

/// Whether the opening takes reply `i` of `h` as `Opening::step` does.
pub open spec fn opens_at(h: OpenHistory, i: int) -> bool {
    call_ensures(
        Opening::step,
        (Opening { phase: h.phases[i] }, h.replies[i]),
        (Opening { phase: h.phases[i + 1] }, h.requests[i + 1]),
    )
}

/// Whether the engine holds `held` along `h`.
pub open spec fn tuned_along(h: OpenHistory, held: Seq<Tuned>, shown: Shown) -> bool {
    &&& held.len() == h.replies.len() + 1
    &&& forall|i: int| 0 <= i < h.replies.len() ==> #[trigger] tuned_at(h, held, shown, i)
}

/// Whether the engine answers request `i` of `h` truly.
pub open spec fn tuned_at(h: OpenHistory, held: Seq<Tuned>, shown: Shown, i: int) -> bool {
    tunes(held[i], shown, h.requests[i], h.replies[i], held[i + 1])
}

/// Whether the engine does what request `i` of `h` asks.
pub open spec fn obeyed_at(h: OpenHistory, held: Seq<Tuned>, i: int) -> bool {
    obeys(held[i], h.requests[i], h.replies[i], held[i + 1])
}

/// Whether a database records the core schema and nothing else, or has nothing of
/// a ledger schema.
pub open spec fn admissible(shown: Shown) -> bool {
    if shown.has_table {
        shown.table.len() > 0 && forall|k: int|
            0 <= k < shown.table.len() ==> is_core(#[trigger] shown.table[k])
    } else {
        shown.objects == 0
    }
}

proof fn lemma_opening(
    path: &str,
    core_schema: String,
    begun: (CoreSchema, Opening, OpenRequest),
    h: OpenHistory,
)
    requires
        call_ensures(
            Opening::open,
            (path, core_schema),
            Ok::<(CoreSchema, Opening, OpenRequest), StorageError>(begun),
        ),
        opens_along(begun, h),
    ensures
        is_opening(h),
{
    assert forall|i: int| 0 <= i < h.replies.len() implies #[trigger] opens(
        h.phases[i],
        h.replies[i],
        h.phases[i + 1],
        h.requests[i + 1],
    ) by {
        assert(opens_at(h, i));
    }
}

proof fn lemma_names()
    ensures
        "journal_mode"@ != "synchronous"@,
        "journal_mode"@ != "foreign_keys"@,
        "journal_mode"@ != "query_only"@,
        "synchronous"@ != "foreign_keys"@,
        "synchronous"@ != "query_only"@,
        "foreign_keys"@ != "query_only"@,
{
    reveal_strlit("journal_mode");
    reveal_strlit("synchronous");
    reveal_strlit("foreign_keys");
    reveal_strlit("query_only");
    assert("journal_mode"@[0] != "foreign_keys"@[0]);
    assert("synchronous"@.len() == 11);
    assert("query_only"@.len() == 10);
}

/// A step that only asks for a setting changes nothing.
proof fn lemma_asked(
    h: OpenHistory,
    held: Seq<Tuned>,
    shown: Shown,
    steps: Seq<Step<StorageCheck>>,
    from: int,
    on_writer: bool,
    query_only: bool,
    k: int,
)
    requires
        tuned_along(h, held, shown),
        steps.len() == 9,
        asserts_profile(steps.skip(4), query_only),
        4 <= k < 9,
        0 <= from,
        from + k < h.replies.len(),
        wants(steps[k], h.requests[k + from], on_writer),
    ensures
        held[k + from + 1] == held[k + from],
        steps[k] matches Step::Run { statement, .. } && statement is Query && tells(
            held[k + from].journal_mode,
            if on_writer {
                held[k + from].writer
            } else {
                held[k + from].reader
            },
            statement,
            h.replies[k + from],
        ),
{
    assert(steps[k] == steps.skip(4)[k - 4]);
    let place = k + from;
    assert(tuned_at(h, held, shown, place));
}

proof fn lemma_kept(
    h: OpenHistory,
    held: Seq<Tuned>,
    shown: Shown,
    read: Seq<Step<StorageCheck>>,
    p: int,
)
    requires
        is_opening(h),
        tuned_along(h, held, shown),
        11 <= p <= h.replies.len(),
        25 <= h.replies.len(),
        h.requests[11] is ConnectReader,
        configures_reader(read),
        ran(h, read, 12, 9, false),
        h.requests[21] is BeginAudit,
        h.requests[22] is Audit,
        h.requests[23] is Audit,
        h.requests[24] is CloseAudit,
    ensures
        held[p].writer == held[11].writer,
        held[p].journal_mode == held[11].journal_mode,
        p >= 21 ==> held[p].reader == held[21].reader,
    decreases p,
{
    if p > 11 {
        let q = p - 1;
        lemma_kept(h, held, shown, read, q);
        assert(tuned_at(h, held, shown, q));
        if 12 <= q < 21 {
            lemma_names();
            let k = q - 12;
            assert(accepts(read[k], h.replies[k + 12]));
            if k >= 4 {
                lemma_asked(h, held, shown, read, 12, false, true, k);
            }
        }
        if q >= 25 {
            let until = OpenHistory {
                phases: h.phases.take(q + 1),
                requests: h.requests.take(q + 1),
                replies: h.replies.take(q),
            };
            assert forall|i: int| 0 <= i < until.replies.len() implies #[trigger] opens(
                until.phases[i],
                until.replies[i],
                until.phases[i + 1],
                until.requests[i + 1],
            ) by {
                assert(opens(h.phases[i], h.replies[i], h.phases[i + 1], h.requests[i + 1]));
            }
            law_opening_ends(until);
            lemma_stands(h, q);
        }
    }
}

/// A database that was opened has the profile of the authority: it writes ahead,
/// both connections are fully synchronous, check foreign keys and wait for a lock
/// for 50 milliseconds, and only the writer admits writes. It records the core
/// schema or has nothing of a ledger schema, which was found out inside a
/// deferred transaction that was closed.
pub proof fn law_opened_database_is_tuned(
    path: &str,
    core_schema: String,
    begun: (CoreSchema, Opening, OpenRequest),
    h: OpenHistory,
    held: Seq<Tuned>,
    shown: Shown,
    i: int,
)
    requires
        call_ensures(
            Opening::open,
            (path, core_schema),
            Ok::<(CoreSchema, Opening, OpenRequest), StorageError>(begun),
        ),
        opens_along(begun, h),
        tuned_along(h, held, shown),
        0 <= i <= h.replies.len(),
        h.phases[i] matches OpenPhase::Ended(Ok(_)),
    ensures
        alike(held[i].journal_mode, "wal"@),
        held[i].writer == (Settings {
            synchronous: 2,
            foreign_keys: 1,
            busy_timeout: 50,
            query_only: 0,
        }),
        held[i].reader == (Settings {
            synchronous: 2,
            foreign_keys: 1,
            busy_timeout: 50,
            query_only: 1,
        }),
        admissible(shown),
        h.requests[21] == OpenRequest::BeginAudit(TransactionBehavior::Deferred),
        h.requests[24] is CloseAudit,
        h.replies[24] is Ok,
{
    lemma_opening(path, core_schema, begun, h);
    lemma_stands(h, i);
    law_opened_database_was_checked(h, i);
    let written = choose|steps: Seq<Step<StorageCheck>>|
        configures_writer(steps) && #[trigger] ran(h, steps, 2, 9, true);
    let read = choose|steps: Seq<Step<StorageCheck>>|
        configures_reader(steps) && #[trigger] ran(h, steps, 12, 9, false);
    let first = h.replies.subrange(6, 11);
    let second = h.replies.subrange(16, 21);
    assert forall|k: int| 4 <= k < 9 implies #[trigger] wants(
        written[k],
        h.requests[k + 2],
        true,
    ) by {
        assert(accepts(written[k], h.replies[k + 2]));
    }
    assert forall|k: int| 4 <= k < 9 implies #[trigger] wants(
        read[k],
        h.requests[k + 12],
        false,
    ) by {
        assert(accepts(read[k], h.replies[k + 12]));
    }
    lemma_asked(h, held, shown, written, 2, true, false, 4);
    lemma_asked(h, held, shown, written, 2, true, false, 5);
    lemma_asked(h, held, shown, written, 2, true, false, 6);
    lemma_asked(h, held, shown, written, 2, true, false, 7);
    lemma_asked(h, held, shown, written, 2, true, false, 8);
    lemma_asked(h, held, shown, read, 12, false, true, 4);
    lemma_asked(h, held, shown, read, 12, false, true, 5);
    lemma_asked(h, held, shown, read, 12, false, true, 6);
    lemma_asked(h, held, shown, read, 12, false, true, 7);
    lemma_asked(h, held, shown, read, 12, false, true, 8);
    lemma_told(h, held[6].journal_mode, held[6].writer, written, 2, false);
    lemma_told(h, held[16].journal_mode, held[16].reader, read, 12, true);
    lemma_kept(h, held, shown, read, i);
    lemma_lowered(held[6].journal_mode, "wal"@);
    assert(tuned_at(h, held, shown, 22));
    assert(tuned_at(h, held, shown, 23));
    lemma_admitted(h, shown);
}

/// What five accepted replies tell of a connection is the profile.
proof fn lemma_told(
    h: OpenHistory,
    mode: Seq<char>,
    settings: Settings,
    steps: Seq<Step<StorageCheck>>,
    from: int,
    query_only: bool,
)
    requires
        steps.len() == 9,
        asserts_profile(steps.skip(4), query_only),
        from == 2 || from == 12,
        from + 9 <= h.replies.len(),
        reports_profile(h.replies.subrange(from + 4, from + 9), query_only),
        forall|k: int|
            4 <= k < 9 ==> (#[trigger] steps[k] matches Step::Run { statement, .. } && tells(
                mode,
                settings,
                statement,
                h.replies[k + from],
            )),
    ensures
        lower_text(mode) == lower_text("wal"@),
        settings.synchronous == 2,
        settings.foreign_keys == 1,
        settings.busy_timeout == 50,
        settings.query_only == if query_only {
            1i64
        } else {
            0i64
        },
{
    let replies = h.replies.subrange(from + 4, from + 9);
    assert forall|k: int| 4 <= k < 9 implies #[trigger] steps[k] == steps.skip(4)[k - 4]
        && replies[k - 4] == h.replies[k + from] by {}
    assert(steps[4] is Run);
    assert(steps[5] is Run);
    assert(steps[6] is Run);
    assert(steps[7] is Run);
    assert(steps[8] is Run);
}

proof fn lemma_admitted(h: OpenHistory, shown: Shown)
    requires
        h.replies.len() >= 25,
        audit_done(h),
        h.replies[22] is Ok ==> (h.requests[22] matches OpenRequest::Audit(statement) && shows(
            shown,
            statement,
            h.replies[22],
        )),
        h.replies[23] is Ok ==> (h.requests[23] matches OpenRequest::Audit(statement) && shows(
            shown,
            statement,
            h.replies[23],
        )),
    ensures
        admissible(shown),
{
    if shown.has_table {
        lemma_records(shown, h.replies[23]);
    }
}

/// Recorded migrations are accepted exactly if something is recorded and all of
/// it is the core schema.
proof fn lemma_records(shown: Shown, reply: Reply)
    requires
        reply matches Ok(answer) && answer.interrupted is None && answer.rows@.len()
            == shown.table.len() && forall|i: int|
            0 <= i < shown.table.len() ==> shows_record(#[trigger] answer.rows@[i], shown.table[i]),
    ensures
        records_verdict(reply) is Ok <==> shown.table.len() > 0 && forall|k: int|
            0 <= k < shown.table.len() ==> is_core(#[trigger] shown.table[k]),
{
    law_records_accepted(reply);
    let rows = reply->Ok_0.rows@;
    assert forall|k: int| 0 <= k < rows.len() implies records_core(#[trigger] rows[k]) == is_core(
        shown.table[k],
    ) by {
        assert(shows_record(rows[k], shown.table[k]));
    }
    assert forall|k: int| 0 <= k < rows.len() implies is_core(#[trigger] shown.table[k])
        == records_core(rows[k]) by {}
}

/// Whether the steps that were to set something before place `i` have set it.
spec fn set_up_to(held: Tuned, i: int) -> bool {
    &&& i >= 2 ==> held.writer.query_only == 0
    &&& i >= 3 ==> held.journal_mode == "wal"@
    &&& i >= 4 ==> held.writer.synchronous == 2
    &&& i >= 5 ==> held.writer.foreign_keys == 1
    &&& i >= 6 ==> held.writer.busy_timeout == 50
    &&& i >= 13 ==> held.reader.synchronous == 2
    &&& i >= 14 ==> held.reader.foreign_keys == 1
    &&& i >= 15 ==> held.reader.busy_timeout == 50
    &&& i >= 16 ==> held.reader.query_only == 1
}

/// Where an opening stands at place `i` if nothing goes wrong.
spec fn on_way(phase: OpenPhase, shown: Shown, i: int) -> bool {
    if i == 0 {
        phase is Building
    } else if i == 1 {
        phase is ConnectingWriter
    } else if i < 11 {
        phase is ConfiguringWriter
    } else if i == 11 {
        phase is ConnectingReader
    } else if i < 21 {
        phase is ConfiguringReader
    } else if i == 21 {
        phase is BeginningAudit
    } else if i == 22 {
        phase == OpenPhase::Auditing(Audit::TableExists)
    } else if i == 23 {
        phase == OpenPhase::Auditing(
            if shown.has_table {
                Audit::Records
            } else {
                Audit::SchemaObjects
            },
        )
    } else if i == 24 {
        phase matches OpenPhase::ClosingAudit(outcome) && (outcome is Ok <==> admissible(shown))
    } else {
        phase matches OpenPhase::Ended(outcome) && (outcome is Ok <==> admissible(shown))
    }
}

/// A step of a configuration is accepted and takes effect if the engine obeys.
proof fn lemma_obeyed_step(
    h: OpenHistory,
    held: Seq<Tuned>,
    shown: Shown,
    steps: Seq<Step<StorageCheck>>,
    from: int,
    on_writer: bool,
    j: int,
    check: StorageCheck,
    rest: Sequence<StorageCheck>,
)
    requires
        tuned_along(h, held, shown),
        from == 2 && on_writer && configures_writer(steps) || from == 12 && !on_writer
            && configures_reader(steps),
        configured(h, steps, from, j, on_writer, check, rest),
        j + from < h.replies.len(),
        obeyed_at(h, held, j + from),
        set_up_to(held[j + from], j + from),
    ensures
        storage_verdict(check, h.replies[j + from]) is Ok,
        set_up_to(held[j + from + 1], j + from + 1),
{
    let place = j + from;
    assert(tuned_at(h, held, shown, place));
    lemma_names();
    if j >= 4 {
        lemma_asked(h, held, shown, steps, from, on_writer, !on_writer, j);
        assert(steps[j] == steps.skip(4)[j - 4]);
    }
}

/// A sequence whose check accepts goes on with its next step, and is done after
/// the last one.
proof fn lemma_goes_on(
    steps: Seq<Step<StorageCheck>>,
    j: int,
    check: StorageCheck,
    rest: Sequence<StorageCheck>,
    reply: Reply,
    progress: Progress<StorageCheck>,
)
    requires
        steps.len() == 9,
        0 <= j < 9,
        rest.steps() == steps.skip(j + 1),
        j < 8 ==> steps[j + 1] is Run,
        storage_verdict(check, reply) is Ok,
        answered(rest.steps(), rest.complete(), check, reply, progress),
    ensures
        j < 8 ==> progress is Ask,
        j == 8 ==> progress matches Progress::Done(Ok(_)),
{
    if j < 8 {
        assert(steps.skip(j + 1)[0] == steps[j + 1]);
    }
}

proof fn lemma_runs(steps: Seq<Step<StorageCheck>>)
    requires
        configures_writer(steps) || configures_reader(steps),
    ensures
        forall|k: int| 0 <= k < 9 ==> #[trigger] steps[k] is Run,
{
    assert forall|k: int| 0 <= k < 9 implies #[trigger] steps[k] is Run by {
        if k >= 4 {
            assert(steps[k] == steps.skip(4)[k - 4]);
        }
    }
}

proof fn lemma_on_way(h: OpenHistory, held: Seq<Tuned>, shown: Shown, i: int)
    requires
        is_opening(h),
        tuned_along(h, held, shown),
        forall|k: int| 0 <= k < h.replies.len() ==> #[trigger] obeyed_at(h, held, k),
        0 <= i <= 25,
        i <= h.replies.len(),
    ensures
        on_way(h.phases[i], shown, i),
        set_up_to(held[i], i),
    decreases i,
{
    if i > 0 {
        let p = i - 1;
        lemma_on_way(h, held, shown, p);
        lemma_stands(h, p);
        lemma_stands(h, i);
        assert(opens(h.phases[p], h.replies[p], h.phases[p + 1], h.requests[p + 1]));
        assert(tuned_at(h, held, shown, p));
        assert(obeyed_at(h, held, p));
        match h.phases[p] {
            OpenPhase::ConnectingWriter => {
                let (sequence, progress) = choose|
                    sequence: Sequence<StorageCheck>,
                    progress: Progress<StorageCheck>,
                | #[trigger]
                    moved(sequence.steps(), true, progress) && configures_writer(sequence.steps())
                        && writer_proceeds(
                        progress,
                        h.phases[i],
                        h.requests[i],
                    );
                lemma_runs(sequence.steps());
                assert(sequence.steps()[0] is Run);
            },
            OpenPhase::ConfiguringWriter { check, rest } => {
                let steps = choose|steps: Seq<Step<StorageCheck>>|
                    configures_writer(steps) && #[trigger] configured(
                        h,
                        steps,
                        2,
                        p - 2,
                        true,
                        check,
                        rest,
                    );
                let progress = choose|progress: Progress<StorageCheck>| #[trigger]
                    answered(rest.steps(), rest.complete(), check, h.replies[p], progress)
                        && writer_proceeds(
                        progress,
                        h.phases[i],
                        h.requests[i],
                    );
                lemma_runs(steps);
                lemma_obeyed_step(h, held, shown, steps, 2, true, p - 2, check, rest);
                lemma_goes_on(steps, p - 2, check, rest, h.replies[p], progress);
            },
            OpenPhase::ConnectingReader => {
                let (sequence, progress) = choose|
                    sequence: Sequence<StorageCheck>,
                    progress: Progress<StorageCheck>,
                | #[trigger]
                    moved(sequence.steps(), true, progress) && configures_reader(sequence.steps())
                        && reader_proceeds(
                        progress,
                        h.phases[i],
                        h.requests[i],
                    );
                lemma_runs(sequence.steps());
                assert(sequence.steps()[0] is Run);
            },
            OpenPhase::ConfiguringReader { check, rest } => {
                let steps = choose|steps: Seq<Step<StorageCheck>>|
                    configures_reader(steps) && #[trigger] configured(
                        h,
                        steps,
                        12,
                        p - 12,
                        false,
                        check,
                        rest,
                    );
                let progress = choose|progress: Progress<StorageCheck>| #[trigger]
                    answered(rest.steps(), rest.complete(), check, h.replies[p], progress)
                        && reader_proceeds(
                        progress,
                        h.phases[i],
                        h.requests[i],
                    );
                lemma_runs(steps);
                lemma_obeyed_step(h, held, shown, steps, 12, false, p - 12, check, rest);
                lemma_goes_on(steps, p - 12, check, rest, h.replies[p], progress);
            },
            OpenPhase::Auditing(Audit::Records) => {
                lemma_records(shown, h.replies[p]);
            },
            _ => {},
        }
    }
}

/// An engine that does what it is asked opens a database exactly if that records
/// the core schema and nothing else, or has nothing of a ledger schema. Nothing is
/// required of its settings before.
pub proof fn law_sound_database_is_opened(
    path: &str,
    core_schema: String,
    begun: (CoreSchema, Opening, OpenRequest),
    h: OpenHistory,
    held: Seq<Tuned>,
    shown: Shown,
)
    requires
        call_ensures(
            Opening::open,
            (path, core_schema),
            Ok::<(CoreSchema, Opening, OpenRequest), StorageError>(begun),
        ),
        opens_along(begun, h),
        tuned_along(h, held, shown),
        forall|k: int| 0 <= k < h.replies.len() ==> #[trigger] obeyed_at(h, held, k),
        h.replies.len() >= 25,
    ensures
        h.phases[25] matches OpenPhase::Ended(outcome) && (outcome is Ok <==> admissible(shown)),
        h.requests[25] is Stop,
{
    lemma_opening(path, core_schema, begun, h);
    lemma_on_way(h, held, shown, 25);
    lemma_stands(h, 25);
}

/// The first failure of the engine ends the opening of a database and is
/// reported. If the audit has begun, it is closed before.
pub proof fn law_failed_opening_is_reported(
    opening: Opening,
    failure: EngineError,
    r: (Opening, OpenRequest),
)
    requires
        call_ensures(Opening::step, (opening, Err(failure)), r),
        opening.phase is Building || opening.phase is ConnectingWriter || opening.phase
            is ConnectingReader || opening.phase is BeginningAudit || opening.phase is Auditing
            || opening.phase is ClosingAudit,
    ensures
        match opening.phase {
            OpenPhase::Auditing(_) => {
                &&& r.0.phase matches OpenPhase::ClosingAudit(Err(error))
                &&& says_engine(error, failure)
                &&& r.1 is CloseAudit
            },
            OpenPhase::ClosingAudit(Ok(_)) => {
                &&& r.0.phase matches OpenPhase::Ended(Err(error))
                &&& error matches StorageError::RollbackAfterSuccess(found)
                &&& same_failure(found, failure)
                &&& r.1 is Stop
            },
            OpenPhase::ClosingAudit(Err(found)) => {
                &&& r.0.phase matches OpenPhase::Ended(Err(error))
                &&& says_both(error, found, failure)
                &&& r.1 is Stop
            },
            _ => {
                &&& r.0.phase matches OpenPhase::Ended(Err(error))
                &&& says_engine(error, failure)
                &&& r.1 is Stop
            },
        },
{
    reveal_with_fuel(StorageError::view, 3);
}

} // verus!
