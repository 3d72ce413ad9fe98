//! The probe of the SQL features that the ledger relies on.
use crate::storage::ending::{commit_scope, reported};
use crate::storage::engine::{
    execute, int_param, params_of, query_first, text_param, Asked, EngineError, Param, RowsWanted,
    SqlValue, Statement, TransactionBehavior,
};
use crate::storage::error::{StorageError, StorageFailure};
use crate::storage::judge::{read_back, reads_back, storage_verdict, StorageCheck};
use crate::storage::laws::{
    accepted, all_found, findings, is_history, law_refusal_rolls_back,
    law_rollback_scope_ends_without_commit, law_undone_scope_leaves_no_trace, rolled_back_at,
    transactional, History,
};
use crate::storage::scope::{is_step, Check, End, Ending, Phase, Request, Scope, Step};
use std::collections::VecDeque;
use vstd::prelude::*;
use vstd::string::*;

verus! {

/// Which SQL features the engine has.
#[derive(Debug, Clone, Copy, PartialEq, Eq, Structural)]
pub struct SqlFeatureReport {
    pub recursive_cte: bool,
    pub window_function: bool,
    pub row_value_comparison: bool,
    pub partial_unique_null_semantics: bool,
    pub generated_stored_column: bool,
    pub returning: bool,
    pub json_functions: bool,
    pub composite_foreign_key: bool,
}

/// The report of an engine that has every required feature.
pub open spec fn report_of(generated_stored_column: bool) -> SqlFeatureReport {
    SqlFeatureReport {
        recursive_cte: true,
        window_function: true,
        row_value_comparison: true,
        partial_unique_null_semantics: true,
        generated_stored_column,
        returning: true,
        json_functions: true,
        composite_foreign_key: true,
    }
}

impl SqlFeatureReport {
    /// The report that the pinned engine gives.
    ///
    /// Stored generated columns are behind a switch there and are deliberately
    /// outside the core schema.
    pub fn pinned_engine() -> (r: SqlFeatureReport)
        ensures
            r == report_of(false),
    {
        SqlFeatureReport {
            recursive_cte: true,
            window_function: true,
            row_value_comparison: true,
            partial_unique_null_semantics: true,
            generated_stored_column: false,
            returning: true,
            json_functions: true,
            composite_foreign_key: true,
        }
    }
}

/// Creates the tables and the index of the probe.
pub const PROBE_SCHEMA: &'static str = "CREATE TABLE norn_cala_probe_parent (\
    left_id INTEGER NOT NULL,\
    right_id INTEGER NOT NULL,\
    PRIMARY KEY (left_id, right_id)\
    ) STRICT;\
    CREATE TABLE norn_cala_probe_child (\
    id INTEGER PRIMARY KEY,\
    left_id INTEGER NOT NULL,\
    right_id INTEGER NOT NULL,\
    payload TEXT NOT NULL CHECK (json_valid(payload)),\
    payload_kind TEXT,\
    FOREIGN KEY (left_id, right_id) \
    REFERENCES norn_cala_probe_parent(left_id, right_id)\
    ) STRICT;\
    CREATE UNIQUE INDEX norn_cala_probe_partial_unique \
    ON norn_cala_probe_child(payload_kind) \
    WHERE payload_kind IS NOT NULL;";

/// Inserts the row that the valid child refers to.
pub const PROBE_PARENT: &'static str = "INSERT INTO norn_cala_probe_parent (left_id, right_id) VALUES (?1, ?2)";

/// Inserts a child and gives its kind back.
pub const PROBE_RETURNING: &'static str = "INSERT INTO norn_cala_probe_child \
    (id, left_id, right_id, payload, payload_kind) \
    VALUES (?1, ?2, ?3, ?4, ?5) \
    RETURNING payload_kind";

/// Inserts a child without a kind.
pub const PROBE_WITHOUT_KIND: &'static str = "INSERT INTO norn_cala_probe_child \
    (id, left_id, right_id, payload, payload_kind) \
    VALUES (?1, ?2, ?3, ?4, NULL)";

/// Inserts a child of a kind.
pub const PROBE_DUPLICATE_KIND: &'static str = "INSERT INTO norn_cala_probe_child \
    (id, left_id, right_id, payload, payload_kind) \
    VALUES (?1, ?2, ?3, ?4, ?5)";

/// Creates a table with a stored generated column.
pub const PROBE_GENERATED: &'static str = "CREATE TABLE norn_cala_probe_generated (\
    source INTEGER NOT NULL,\
    doubled INTEGER GENERATED ALWAYS AS (source * 2) STORED\
    ) STRICT;";

/// Sums the numbers of a recursive query.
pub const PROBE_RECURSIVE: &'static str = "WITH RECURSIVE seq(n) AS (\
    VALUES(1) UNION ALL SELECT n + 1 FROM seq WHERE n < 4\
    ) SELECT SUM(n) FROM seq";

/// Numbers rows in a window.
pub const PROBE_WINDOW: &'static str = "WITH values_(n) AS (VALUES(3), (1), (2)) \
    SELECT MAX(position) FROM (\
    SELECT ROW_NUMBER() OVER (ORDER BY n) AS position FROM values_\
    )";

/// Compares two row values.
pub const PROBE_ROW_VALUE: &'static str = "SELECT (2, 3) > (1, 99)";

/// Reads a number out of JSON.
pub const PROBE_JSON: &'static str = "SELECT json_extract('{\"nested\":{\"value\":42}}', '$.nested.value')";

/// Inserts a child whose parent is missing.
pub const PROBE_ORPHAN: &'static str = "INSERT INTO norn_cala_probe_child \
    (id, left_id, right_id, payload) VALUES (?1, ?2, ?3, ?4)";

/// Where the probe tries a stored generated column.
pub open spec fn generated_place() -> int {
    6
}

/// The parameters of the valid parent.
pub open spec fn parent() -> Seq<Param> {
    seq![Param::Integer(7), Param::Integer(11)]
}

/// The parameters of a child without a kind.
pub open spec fn child(id: i64, left: i64, right: i64, payload: Seq<char>) -> Seq<Param> {
    seq![
        Param::Integer(id),
        Param::Integer(left),
        Param::Integer(right),
        Param::Text(payload),
    ]
}

/// The parameters of a child of the valid parent, of the kind `core`.
pub open spec fn core_child(id: i64) -> Seq<Param> {
    child(id, 7, 11, "{\"kind\":\"core\"}"@).push(Param::Text("core"@))
}

/// Whether `steps` probe every required feature, each with its own check.
///
/// A partial index must admit several rows without a kind and refuse a second
/// one of the same kind. A child must refer to a parent.
pub open spec fn is_probe(steps: Seq<Step<StorageCheck>>) -> bool {
    &&& steps.len() == 12
    &&& is_step(steps[0], Asked::Batch(PROBE_SCHEMA@), StorageCheck::Succeeded)
    &&& is_step(steps[1], Asked::Execute(PROBE_PARENT@, parent()), StorageCheck::Succeeded)
    &&& is_step(
        steps[2],
        Asked::Query(PROBE_RETURNING@, core_child(1), RowsWanted::First),
        StorageCheck::Returned {
            expected: "core",
            feature: "INSERT RETURNING",
            missing: "INSERT RETURNING produced no probe row",
        },
    )
    &&& is_step(
        steps[3],
        Asked::Execute(PROBE_WITHOUT_KIND@, child(2, 7, 11, "{\"kind\":null}"@)),
        StorageCheck::Succeeded,
    )
    &&& is_step(
        steps[4],
        Asked::Execute(PROBE_WITHOUT_KIND@, child(3, 7, 11, "{\"kind\":null}"@)),
        StorageCheck::Succeeded,
    )
    &&& is_step(
        steps[5],
        Asked::Execute(PROBE_DUPLICATE_KIND@, core_child(4)),
        StorageCheck::Rejected {
            fragment: "unique",
            feature: "partial UNIQUE duplicate enforcement",
        },
    )
    &&& is_step(steps[6], Asked::Batch(PROBE_GENERATED@), StorageCheck::GeneratedColumn)
    &&& reads_back(steps[7], PROBE_RECURSIVE, 10, "recursive CTE")
    &&& reads_back(steps[8], PROBE_WINDOW, 3, "window function")
    &&& reads_back(steps[9], PROBE_ROW_VALUE, 1, "row-value comparison")
    &&& reads_back(steps[10], PROBE_JSON, 42, "JSON functions")
    &&& is_step(
        steps[11],
        Asked::Execute(PROBE_ORPHAN@, child(5, 999, 999, "{\"kind\":\"invalid\"}"@)),
        StorageCheck::Rejected {
            fragment: "foreign key",
            feature: "composite foreign-key enforcement",
        },
    )
}

fn batch(script: &str, check: StorageCheck) -> (r: Step<StorageCheck>)
    ensures
        is_step(r, Asked::Batch(script@), check),
{
    Step::Run { statement: Statement::Batch { script: script.to_owned() }, check }
}

fn parent_params() -> (r: Vec<SqlValue>)
    ensures
        params_of(r@) == parent(),
{
    let params = vec![int_param(7), int_param(11)];
    proof {
        assert(params_of(params@) =~= parent());
    }
    params
}

fn child_params(id: i64, left: i64, right: i64, payload: &str) -> (r: Vec<SqlValue>)
    ensures
        params_of(r@) == child(id, left, right, payload@),
{
    let params = vec![int_param(id), int_param(left), int_param(right), text_param(payload)];
    proof {
        assert(params_of(params@) =~= child(id, left, right, payload@));
    }
    params
}

fn core_child_params(id: i64) -> (r: Vec<SqlValue>)
    ensures
        params_of(r@) == core_child(id),
{
    let mut params = child_params(id, 7, 11, "{\"kind\":\"core\"}");
    let ghost without_kind = params_of(params@);
    params.push(text_param("core"));
    proof {
        assert(params_of(params@) =~= without_kind.push(Param::Text("core"@)));
    }
    params
}

fn probe_steps() -> (r: VecDeque<Step<StorageCheck>>)
    ensures
        is_probe(r@),
{
    let mut steps: VecDeque<Step<StorageCheck>> = VecDeque::new();
    steps.push_back(batch(PROBE_SCHEMA, StorageCheck::Succeeded));
    steps.push_back(
        Step::Run {
            statement: execute(PROBE_PARENT, parent_params()),
            check: StorageCheck::Succeeded,
        },
    );
    steps.push_back(
        Step::Run {
            statement: query_first(PROBE_RETURNING, core_child_params(1)),
            check: StorageCheck::Returned {
                expected: "core",
                feature: "INSERT RETURNING",
                missing: "INSERT RETURNING produced no probe row",
            },
        },
    );
    steps.push_back(
        Step::Run {
            statement: execute(PROBE_WITHOUT_KIND, child_params(2, 7, 11, "{\"kind\":null}")),
            check: StorageCheck::Succeeded,
        },
    );
    steps.push_back(
        Step::Run {
            statement: execute(PROBE_WITHOUT_KIND, child_params(3, 7, 11, "{\"kind\":null}")),
            check: StorageCheck::Succeeded,
        },
    );
    steps.push_back(
        Step::Run {
            statement: execute(PROBE_DUPLICATE_KIND, core_child_params(4)),
            check: StorageCheck::Rejected {
                fragment: "unique",
                feature: "partial UNIQUE duplicate enforcement",
            },
        },
    );
    steps.push_back(batch(PROBE_GENERATED, StorageCheck::GeneratedColumn));
    steps.push_back(read_back(PROBE_RECURSIVE, 10, "recursive CTE"));
    steps.push_back(read_back(PROBE_WINDOW, 3, "window function"));
    steps.push_back(read_back(PROBE_ROW_VALUE, 1, "row-value comparison"));
    steps.push_back(read_back(PROBE_JSON, 42, "JSON functions"));
    steps.push_back(
        Step::Run {
            statement: execute(
                PROBE_ORPHAN,
                child_params(5, 999, 999, "{\"kind\":\"invalid\"}"),
            ),
            check: StorageCheck::Rejected {
                fragment: "foreign key",
                feature: "composite foreign-key enforcement",
            },
        },
    );
    steps
}

/// Begins the probe. Its objects and rows are rolled back whatever it finds.
pub fn probe_required_sql() -> (r: (Scope<StorageCheck>, Request))
    ensures
        r.0.end == End::Rollback,
        (r.0.phase matches Phase::Opening(sequence) && is_probe(sequence.steps())
            && sequence.complete()),
        r.1 == Request::Begin(TransactionBehavior::Immediate),
{
    Scope::new(End::Rollback, probe_steps())
}

/// Reports what the probe found once its transaction has ended.
pub fn probe_report(ending: Ending<StorageError>) -> (r: Result<SqlFeatureReport, StorageError>)
    ensures
        match r {
            Ok(report) => reported(ending) matches Ok(complete) && report == report_of(complete),
            Err(error) => reported(ending) == Err::<bool, StorageFailure>(error@),
        },
{
    match commit_scope(ending) {
        Ok(complete) => {
            let mut report = SqlFeatureReport::pinned_engine();
            report.generated_stored_column = complete;
            Ok(report)
        },
        Err(error) => Err(error),
    }
}

/// A probe that ends with a report had every required feature accepted, was
/// rolled back, never asked for a commit, and reports stored generated columns
/// exactly if the engine made one.
pub proof fn law_probe_reports_what_the_engine_did(
    steps: Seq<Step<StorageCheck>>,
    h: History<StorageCheck>,
    i: int,
    complete: bool,
    rollback: Result<(), EngineError>,
)
    requires
        is_probe(steps),
        is_history(End::Rollback, steps, h),
        0 <= i <= h.replies.len(),
        h.phases[i] == Phase::<StorageCheck>::Closed(
            Ending::RolledBack { outcome: Ok(complete), rollback },
        ),
    ensures
        accepted(steps, h, steps.len() as int),
        h.requests[steps.len() as int + 1] is Rollback,
        complete <==> h.replies[generated_place() + 1] is Ok,
{
    let outcome: Result<bool, StorageError> = Ok(complete);
    law_refusal_rolls_back(End::Rollback, steps, h, i, outcome, rollback);
    let j = choose|j: int| #[trigger] rolled_back_at(End::Rollback, steps, h, outcome, i, j);
    assert(rolled_back_at(End::Rollback, steps, h, outcome, i, j));
    let n = steps.len() as int;
    assert(all_found(steps, h, n, complete));
    let bits = choose|bits: Seq<bool>| #[trigger]
        findings(steps, h, bits) && bits.len() == n && (complete <==> forall|k: int|
            0 <= k < n ==> #[trigger] bits[k]);
    let place = generated_place();
    assert forall|k: int| 0 <= k < n && k != place implies #[trigger] bits[k] by {
        lemma_finding(steps, h, bits, k);
    }
    lemma_finding(steps, h, bits, place);
}

/// The probe leaves no trace, whatever it finds: once it has closed and its
/// rollback did not fail, an engine with transactions holds what it held before.
pub proof fn law_probe_leaves_no_trace<S>(
    steps: Seq<Step<StorageCheck>>,
    h: History<StorageCheck>,
    held: Seq<S>,
    i: int,
    ending: Ending<StorageError>,
)
    requires
        is_probe(steps),
        is_history(End::Rollback, steps, h),
        transactional(h, held),
        0 <= i <= h.replies.len(),
        h.phases[i] == Phase::<StorageCheck>::Closed(ending),
        ending matches Ending::RolledBack { rollback, .. } ==> rollback is Ok,
    ensures
        ending is NotBegun || ending is RolledBack,
        held[i] == held[0],
{
    law_rollback_scope_ends_without_commit(steps, h, i);
    law_undone_scope_leaves_no_trace(End::Rollback, steps, h, held, i);
}

proof fn lemma_finding(
    steps: Seq<Step<StorageCheck>>,
    h: History<StorageCheck>,
    bits: Seq<bool>,
    k: int,
)
    requires
        is_probe(steps),
        findings(steps, h, bits),
        0 <= k < bits.len(),
    ensures
        k != generated_place() ==> bits[k],
        k == generated_place() ==> (bits[k] <==> h.replies[k + 1] is Ok),
{
    assert(steps[k] is Run);
    let check = steps[k]->check;
    assert(storage_verdict(check, h.replies[k + 1]) == Ok::<bool, StorageFailure>(bits[k]));
}

} // verus!
