//! The settings of an authority's connections.
use crate::storage::engine::{
    params_of, query_first, Asked, Param, Reply, RowsWanted, SqlValue, Statement,
};
use crate::storage::error::{StorageError, StorageFailure};
use crate::storage::judge::{
    integer_answer, read_back, reads_back, storage_verdict, text_answer, StorageCheck,
    AUTHORITY_JOURNAL_MODE,
};
use crate::storage::laws::{accepts, is_course, law_finished_sequence_ran_every_step, Course};
use crate::storage::scope::{is_step, Check, Progress, Sequence, Step};
use crate::text::lower_text;
use std::collections::VecDeque;
use vstd::prelude::*;

verus! {

/// Value of `PRAGMA synchronous` that stands for FULL.
pub const AUTHORITY_SYNCHRONOUS: i64 = 2;

/// How long a connection waits for a lock, in milliseconds.
pub const AUTHORITY_BUSY_TIMEOUT_MS: u64 = 50;

/// The same wait as `PRAGMA busy_timeout` gives it back.
pub const BUSY_TIMEOUT_READ_BACK: i64 = 50;

/// The journal mode as it is written in a setting.
pub const JOURNAL_MODE_SETTING: &'static str = "'wal'";

/// How long a connection waits for a lock, in milliseconds.
pub fn authority_busy_timeout() -> (r: u64)
    ensures
        r == AUTHORITY_BUSY_TIMEOUT_MS,
{
    AUTHORITY_BUSY_TIMEOUT_MS
}

/// Whether `step` makes a setting.
pub open spec fn sets(step: Step<StorageCheck>, name: Seq<char>, value: Seq<char>) -> bool {
    is_step(step, Asked::PragmaUpdate(name, value), StorageCheck::Succeeded)
}

/// Whether `step` bounds the wait for a lock.
pub open spec fn bounds_wait(step: Step<StorageCheck>) -> bool {
    is_step(step, Asked::BusyTimeout(AUTHORITY_BUSY_TIMEOUT_MS), StorageCheck::Succeeded)
}

/// Whether `steps` read every setting of the profile back and require its
/// value.
pub open spec fn asserts_profile(steps: Seq<Step<StorageCheck>>, query_only: bool) -> bool {
    &&& steps.len() == 5
    &&& is_step(
        steps[0],
        Asked::Query("PRAGMA journal_mode"@, Seq::<Param>::empty(), RowsWanted::First),
        StorageCheck::JournalMode { sql: "PRAGMA journal_mode" },
    )
    &&& reads_back(
        steps[1],
        "PRAGMA synchronous",
        AUTHORITY_SYNCHRONOUS,
        "PRAGMA synchronous = FULL",
    )
    &&& reads_back(steps[2], "PRAGMA foreign_keys", 1, "PRAGMA foreign_keys = ON")
    &&& reads_back(
        steps[3],
        "PRAGMA busy_timeout",
        BUSY_TIMEOUT_READ_BACK,
        "bounded PRAGMA busy_timeout",
    )
    &&& if query_only {
        reads_back(steps[4], "PRAGMA query_only", 1, "read connection PRAGMA query_only = ON")
    } else {
        reads_back(steps[4], "PRAGMA query_only", 0, "write connection PRAGMA query_only = OFF")
    }
}

/// Whether `steps` give a write connection its profile and check it.
pub open spec fn configures_writer(steps: Seq<Step<StorageCheck>>) -> bool {
    &&& steps.len() == 9
    &&& sets(steps[0], "journal_mode"@, JOURNAL_MODE_SETTING@)
    &&& sets(steps[1], "synchronous"@, "FULL"@)
    &&& sets(steps[2], "foreign_keys"@, "ON"@)
    &&& bounds_wait(steps[3])
    &&& asserts_profile(steps.skip(4), false)
}

/// Whether `steps` give a read connection its profile and check it.
pub open spec fn configures_reader(steps: Seq<Step<StorageCheck>>) -> bool {
    &&& steps.len() == 9
    &&& sets(steps[0], "synchronous"@, "FULL"@)
    &&& sets(steps[1], "foreign_keys"@, "ON"@)
    &&& bounds_wait(steps[2])
    &&& sets(steps[3], "query_only"@, "1"@)
    &&& asserts_profile(steps.skip(4), true)
}

fn set(name: &'static str, value: &'static str) -> (r: Step<StorageCheck>)
    ensures
        sets(r, name@, value@),
{
    Step::Run {
        statement: Statement::PragmaUpdate { name, value },
        check: StorageCheck::Succeeded,
    }
}

fn bound_wait() -> (r: Step<StorageCheck>)
    ensures
        bounds_wait(r),
{
    Step::Run {
        statement: Statement::BusyTimeout { millis: authority_busy_timeout() },
        check: StorageCheck::Succeeded,
    }
}

/// Appends the steps that check the profile of a connection.
pub fn assert_connection_profile(
    steps: VecDeque<Step<StorageCheck>>,
    query_only: bool,
) -> (r: VecDeque<Step<StorageCheck>>)
    ensures
        r@.len() == steps@.len() + 5,
        forall|i: int| 0 <= i < steps@.len() ==> r@[i] == steps@[i],
        asserts_profile(r@.skip(steps@.len() as int), query_only),
{
    let mut steps = steps;
    let params: Vec<SqlValue> = Vec::new();
    proof {
        assert(params_of(params@) =~= Seq::<Param>::empty());
    }
    steps.push_back(
        Step::Run {
            statement: query_first("PRAGMA journal_mode", params),
            check: StorageCheck::JournalMode { sql: "PRAGMA journal_mode" },
        },
    );
    steps.push_back(
        read_back("PRAGMA synchronous", AUTHORITY_SYNCHRONOUS, "PRAGMA synchronous = FULL"),
    );
    steps.push_back(read_back("PRAGMA foreign_keys", 1, "PRAGMA foreign_keys = ON"));
    steps.push_back(
        read_back("PRAGMA busy_timeout", BUSY_TIMEOUT_READ_BACK, "bounded PRAGMA busy_timeout"),
    );
    if query_only {
        steps.push_back(
            read_back("PRAGMA query_only", 1, "read connection PRAGMA query_only = ON"),
        );
    } else {
        steps.push_back(
            read_back("PRAGMA query_only", 0, "write connection PRAGMA query_only = OFF"),
        );
    }
    steps
}

/// Configures a write connection and checks what it reports.
pub fn configure_write_connection() -> (r: Sequence<StorageCheck>)
    ensures
        configures_writer(r.steps()),
        r.complete(),
{
    let mut steps: VecDeque<Step<StorageCheck>> = VecDeque::new();
    steps.push_back(set("journal_mode", JOURNAL_MODE_SETTING));
    steps.push_back(set("synchronous", "FULL"));
    steps.push_back(set("foreign_keys", "ON"));
    steps.push_back(bound_wait());
    Sequence::new(assert_connection_profile(steps, false))
}

/// Configures a read connection, which refuses to write, and checks what it
/// reports.
pub fn configure_read_connection() -> (r: Sequence<StorageCheck>)
    ensures
        configures_reader(r.steps()),
        r.complete(),
{
    let mut steps: VecDeque<Step<StorageCheck>> = VecDeque::new();
    steps.push_back(set("synchronous", "FULL"));
    steps.push_back(set("foreign_keys", "ON"));
    steps.push_back(bound_wait());
    steps.push_back(set("query_only", "1"));
    Sequence::new(assert_connection_profile(steps, true))
}

/// Whether five replies report the profile of an authority connection.
pub open spec fn reports_profile(replies: Seq<Reply>, query_only: bool) -> bool {
    &&& replies.len() == 5
    &&& text_answer("PRAGMA journal_mode"@, replies[0]) matches Ok(mode)
    &&& lower_text(mode) == lower_text(AUTHORITY_JOURNAL_MODE@)
    &&& integer_answer("PRAGMA synchronous"@, replies[1]) == Ok::<i64, StorageFailure>(
        AUTHORITY_SYNCHRONOUS,
    )
    &&& integer_answer("PRAGMA foreign_keys"@, replies[2]) == Ok::<i64, StorageFailure>(1)
    &&& integer_answer("PRAGMA busy_timeout"@, replies[3]) == Ok::<i64, StorageFailure>(
        BUSY_TIMEOUT_READ_BACK,
    )
    &&& integer_answer("PRAGMA query_only"@, replies[4]) == Ok::<i64, StorageFailure>(
        if query_only {
            1
        } else {
            0
        },
    )
}

proof fn lemma_read_back(
    step: Step<StorageCheck>,
    reply: Reply,
    sql: &'static str,
    expected: i64,
    feature: &'static str,
)
    requires
        reads_back(step, sql, expected, feature),
        accepts(step, reply),
    ensures
        integer_answer(sql@, reply) == Ok::<i64, StorageFailure>(expected),
{
    let check = StorageCheck::IntegerIs { sql, wanted: expected, feature };
    let present = choose|present: bool|
        check.judged(reply, Ok::<bool, StorageError>(present));
    assert(storage_verdict(check, reply) == Ok::<bool, StorageFailure>(present));
}

/// Accepted replies to the steps that check a profile report that profile.
pub proof fn lemma_profile(
    asserted: Seq<Step<StorageCheck>>,
    replies: Seq<Reply>,
    query_only: bool,
)
    requires
        asserts_profile(asserted, query_only),
        replies.len() == 5,
        forall|k: int| 0 <= k < 5 ==> accepts(#[trigger] asserted[k], replies[k]),
    ensures
        reports_profile(replies, query_only),
{
    let check = StorageCheck::JournalMode { sql: "PRAGMA journal_mode" };
    assert(accepts(asserted[0], replies[0]));
    let present = choose|present: bool|
        check.judged(replies[0], Ok::<bool, StorageError>(present));
    assert(storage_verdict(check, replies[0]) == Ok::<bool, StorageFailure>(present));
    lemma_read_back(
        asserted[1],
        replies[1],
        "PRAGMA synchronous",
        AUTHORITY_SYNCHRONOUS,
        "PRAGMA synchronous = FULL",
    );
    lemma_read_back(
        asserted[2],
        replies[2],
        "PRAGMA foreign_keys",
        1,
        "PRAGMA foreign_keys = ON",
    );
    lemma_read_back(
        asserted[3],
        replies[3],
        "PRAGMA busy_timeout",
        BUSY_TIMEOUT_READ_BACK,
        "bounded PRAGMA busy_timeout",
    );
    if query_only {
        lemma_read_back(
            asserted[4],
            replies[4],
            "PRAGMA query_only",
            1,
            "read connection PRAGMA query_only = ON",
        );
    } else {
        lemma_read_back(
            asserted[4],
            replies[4],
            "PRAGMA query_only",
            0,
            "write connection PRAGMA query_only = OFF",
        );
    }
}

/// A read connection that was configured reported the profile of the authority
/// and that it refuses to write.
pub proof fn law_configured_reader_is_query_only(
    steps: Seq<Step<StorageCheck>>,
    c: Course<StorageCheck>,
    complete: bool,
)
    requires
        configures_reader(steps),
        is_course(steps, c),
        c.progresses.last() == Progress::<StorageCheck>::Done(Ok(complete)),
    ensures
        c.replies.len() == 9,
        reports_profile(c.replies.skip(4), true),
{
    law_finished_sequence_ran_every_step(steps, c, complete);
    let asserted = steps.skip(4);
    let replies = c.replies.skip(4);
    assert forall|k: int| 0 <= k < 5 implies accepts(#[trigger] asserted[k], replies[k]) by {
        assert(asserted[k] == steps[k + 4]);
    }
    lemma_profile(asserted, replies, true);
}

/// A write connection that was configured reported the profile of the
/// authority.
pub proof fn law_configured_writer_has_the_profile(
    steps: Seq<Step<StorageCheck>>,
    c: Course<StorageCheck>,
    complete: bool,
)
    requires
        configures_writer(steps),
        is_course(steps, c),
        c.progresses.last() == Progress::<StorageCheck>::Done(Ok(complete)),
    ensures
        c.replies.len() == 9,
        reports_profile(c.replies.skip(4), false),
{
    law_finished_sequence_ran_every_step(steps, c, complete);
    let asserted = steps.skip(4);
    let replies = c.replies.skip(4);
    assert forall|k: int| 0 <= k < 5 implies accepts(#[trigger] asserted[k], replies[k]) by {
        assert(asserted[k] == steps[k + 4]);
    }
    lemma_profile(asserted, replies, false);
}

} // verus!
