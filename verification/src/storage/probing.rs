//! What the probe finds out about an engine.
use crate::letters::composed;
use crate::storage::engine::{params_of, Param, Reply, SqlValue, Statement};
use crate::storage::error::{StorageError, StorageFailure};
use crate::storage::judge::{storage_verdict, StorageCheck};
use crate::storage::judging::{
    gives_number, gives_text, lemma_has_part, lemma_named, names_constraint,
};
use crate::storage::laws::{
    cannot_refuse, irrefutable_up_to, is_history, law_accepted_steps_go_on,
    law_closed_scope_stays, law_first_refusal_is_the_outcome, law_refused_reply_is_the_last,
    takes, transactional, History,
};
use crate::storage::play::{bound_number, bound_text, lemma_history, plays};
use crate::storage::probe::{
    child, core_child, is_probe, law_probe_leaves_no_trace, law_probe_reports_what_the_engine_did,
    parent, probe_report, probe_required_sql, SqlFeatureReport,
};
use crate::storage::scope::{follows, Check, End, Ending, Phase, Request, Scope, Step};
use crate::text::lower_text;
use vstd::prelude::*;
use vstd::string::*;

verus! {

/// What an engine can do.
pub struct Features {
    /// An insert gives back what it is asked to return.
    pub returning: bool,
    /// A partial index admits several rows without a kind.
    pub several_without_kind: bool,
    /// A partial index refuses a second row of one kind.
    pub one_of_a_kind: bool,
    /// A reference of two columns must be to a row.
    pub composite_foreign_key: bool,
    pub stored_generated_column: bool,
    pub recursive_cte: bool,
    pub window_function: bool,
    pub row_value_comparison: bool,
    pub json_functions: bool,
}

/// Whether an engine has every feature that the ledger relies on.
pub open spec fn suffices(f: Features) -> bool {
    &&& f.returning
    &&& f.several_without_kind
    &&& f.one_of_a_kind
    &&& f.composite_foreign_key
    &&& f.recursive_cte
    &&& f.window_function
    &&& f.row_value_comparison
    &&& f.json_functions
}

/// The rows of the probe: its parents, the keys of its children, the kinds that
/// they have, and whether one of them is without a kind.
pub struct Brood {
    pub parents: Set<(i64, i64)>,
    pub ids: Set<i64>,
    pub kinds: Set<Seq<char>>,
    pub without_kind: bool,
}

/// Whether a child is refused, accepted and kept as an engine with these features
/// does it.
pub open spec fn bears(
    f: Features,
    rows: Brood,
    id: i64,
    of: (i64, i64),
    kind: Option<Seq<char>>,
    reply: Reply,
    after: Brood,
) -> bool {
    if f.composite_foreign_key && !rows.parents.contains(of) {
        names_constraint(reply, "foreign key"@) && after == rows
    } else if rows.ids.contains(id) {
        names_constraint(reply, "unique"@) && after == rows
    } else {
        match kind {
            Some(kind) => if f.one_of_a_kind && rows.kinds.contains(kind) {
                names_constraint(reply, "unique"@) && after == rows
            } else {
                reply is Ok && after == Brood {
                    ids: rows.ids.insert(id),
                    kinds: rows.kinds.insert(kind),
                    ..rows
                }
            },
            None => if !f.several_without_kind && rows.without_kind {
                reply is Err && after == rows
            } else {
                reply is Ok && after == Brood {
                    ids: rows.ids.insert(id),
                    without_kind: true,
                    ..rows
                }
            },
        }
    }
}

/// Whether `payload` is one of the JSON texts that say a kind.
pub open spec fn says_kind(payload: Seq<char>) -> bool {
    ||| payload == "{\"kind\":\"core\"}"@
    ||| payload == "{\"kind\":null}"@
    ||| payload == "{\"kind\":\"invalid\"}"@
}

/// Whether an engine with these features may answer `statement` with `reply` and
/// then have the rows `after`. Nothing is known of what it makes of other payloads
/// than those that say a kind.
pub open spec fn probes(
    f: Features,
    rows: Brood,
    statement: Statement,
    reply: Reply,
    after: Brood,
) -> bool {
    match statement {
        Statement::Batch { script } => {
            &&& script@
                == "CREATE TABLE norn_cala_probe_parent (left_id INTEGER NOT NULL,right_id INTEGER NOT NULL,PRIMARY KEY (left_id, right_id)) STRICT;CREATE TABLE norn_cala_probe_child (id INTEGER PRIMARY KEY,left_id INTEGER NOT NULL,right_id INTEGER NOT NULL,payload TEXT NOT NULL CHECK (json_valid(payload)),payload_kind TEXT,FOREIGN KEY (left_id, right_id) REFERENCES norn_cala_probe_parent(left_id, right_id)) STRICT;CREATE UNIQUE INDEX norn_cala_probe_partial_unique ON norn_cala_probe_child(payload_kind) WHERE payload_kind IS NOT NULL;"@
                ==> reply is Ok && after == (Brood {
                parents: Set::empty(),
                ids: Set::empty(),
                kinds: Set::empty(),
                without_kind: false,
            })
            &&& script@
                == "CREATE TABLE norn_cala_probe_generated (source INTEGER NOT NULL,doubled INTEGER GENERATED ALWAYS AS (source * 2) STORED) STRICT;"@
                ==> after == rows && if f.stored_generated_column {
                reply is Ok
            } else {
                reply matches Err(error) && exists|front: Seq<char>, back: Seq<char>|
                    composed(error.text@, front, "experimental-generated-columns"@, back)
            }
        },
        Statement::Execute { sql, params } => {
            &&& sql@
                == "INSERT INTO norn_cala_probe_parent (left_id, right_id) VALUES (?1, ?2)"@
                ==> reply is Ok && after == Brood {
                parents: rows.parents.insert((bound_number(params@, 0), bound_number(params@, 1))),
                ..rows
            }
            &&& sql@
                == "INSERT INTO norn_cala_probe_child (id, left_id, right_id, payload, payload_kind) VALUES (?1, ?2, ?3, ?4, NULL)"@
                || sql@
                == "INSERT INTO norn_cala_probe_child (id, left_id, right_id, payload) VALUES (?1, ?2, ?3, ?4)"@
                ==> says_kind(bound_text(params@, 3)) ==> bears(
                f,
                rows,
                bound_number(params@, 0),
                (bound_number(params@, 1), bound_number(params@, 2)),
                None,
                reply,
                after,
            )
            &&& sql@
                == "INSERT INTO norn_cala_probe_child (id, left_id, right_id, payload, payload_kind) VALUES (?1, ?2, ?3, ?4, ?5)"@
                ==> says_kind(bound_text(params@, 3)) ==> bears(
                f,
                rows,
                bound_number(params@, 0),
                (bound_number(params@, 1), bound_number(params@, 2)),
                Some(bound_text(params@, 4)),
                reply,
                after,
            )
        },
        Statement::Query { sql, params, .. } => {
            &&& sql@
                == "INSERT INTO norn_cala_probe_child (id, left_id, right_id, payload, payload_kind) VALUES (?1, ?2, ?3, ?4, ?5) RETURNING payload_kind"@
                ==> says_kind(bound_text(params@, 3)) ==> {
                &&& bears(
                    f,
                    rows,
                    bound_number(params@, 0),
                    (bound_number(params@, 1), bound_number(params@, 2)),
                    Some(bound_text(params@, 4)),
                    reply,
                    after,
                )
                &&& reply is Ok ==> gives_text(reply, bound_text(params@, 4)) == f.returning
            }
            &&& sql@
                == "WITH RECURSIVE seq(n) AS (VALUES(1) UNION ALL SELECT n + 1 FROM seq WHERE n < 4) SELECT SUM(n) FROM seq"@
                ==> after == rows && gives_number(reply, 10) == f.recursive_cte
            &&& sql@
                == "WITH values_(n) AS (VALUES(3), (1), (2)) SELECT MAX(position) FROM (SELECT ROW_NUMBER() OVER (ORDER BY n) AS position FROM values_)"@
                ==> after == rows && gives_number(reply, 3) == f.window_function
            &&& sql@ == "SELECT (2, 3) > (1, 99)"@ ==> after == rows && gives_number(reply, 1)
                == f.row_value_comparison
            &&& sql@
                == "SELECT json_extract('{\"nested\":{\"value\":42}}', '$.nested.value')"@
                ==> after == rows && gives_number(reply, 42) == f.json_functions
        },
        _ => true,
    }
}

/// Whether an engine with these features may answer `request` with `reply` and
/// then have the rows `after`. It begins and rolls back when it is asked to.
pub open spec fn serves_probe(
    f: Features,
    rows: Brood,
    request: Request,
    reply: Reply,
    after: Brood,
) -> bool {
    match request {
        Request::Run(statement) => probes(f, rows, statement, reply, after),
        _ => reply is Ok,
    }
}

/// Whether an engine with these features has the rows `held` along `h`.
pub open spec fn probed_along(f: Features, h: History<StorageCheck>, held: Seq<Brood>) -> bool {
    &&& held.len() == h.requests.len()
    &&& forall|i: int|
        0 <= i < h.replies.len() ==> #[trigger] serves_probe(
            f,
            held[i],
            h.requests[i],
            h.replies[i],
            held[i + 1],
        )
}

/// Whether the engine has the feature that step `n` of the probe is about.
spec fn feature(f: Features, n: int) -> bool {
    if n == 2 {
        f.returning
    } else if n == 4 {
        f.several_without_kind
    } else if n == 5 {
        f.one_of_a_kind
    } else if n == 7 {
        f.recursive_cte
    } else if n == 8 {
        f.window_function
    } else if n == 9 {
        f.row_value_comparison
    } else if n == 10 {
        f.json_functions
    } else if n == 11 {
        f.composite_foreign_key
    } else {
        true
    }
}

/// The rows before step `n`, if every step before it was accepted.
spec fn grown(rows: Brood, n: int) -> bool {
    &&& n >= 1 ==> rows.parents == if n >= 2 {
        Set::<(i64, i64)>::empty().insert((7, 11))
    } else {
        Set::<(i64, i64)>::empty()
    }
    &&& n >= 1 ==> rows.ids == if n <= 2 {
        Set::<i64>::empty()
    } else if n == 3 {
        Set::<i64>::empty().insert(1)
    } else if n == 4 {
        Set::<i64>::empty().insert(1).insert(2)
    } else {
        Set::<i64>::empty().insert(1).insert(2).insert(3)
    }
    &&& n >= 1 ==> rows.kinds == if n <= 2 {
        Set::<Seq<char>>::empty()
    } else {
        Set::<Seq<char>>::empty().insert("core"@)
    }
    &&& n >= 1 ==> (rows.without_kind <==> n >= 4)
}

proof fn lemma_bound(params: Seq<SqlValue>, said: Seq<Param>, i: int)
    requires
        params_of(params) == said,
        0 <= i < said.len(),
    ensures
        match said[i] {
            Param::Integer(value) => bound_number(params, i) == value,
            Param::Text(text) => bound_text(params, i) == text,
        },
{
    assert(params_of(params)[i] == params[i]@);
}

proof fn lemma_step_found(
    f: Features,
    step: Step<StorageCheck>,
    steps: Seq<Step<StorageCheck>>,
    n: int,
    rows: Brood,
    reply: Reply,
    after: Brood,
)
    requires
        is_probe(steps),
        0 <= n < 12,
        step == steps[n],
        grown(rows, n),
        n > 4 ==> f.several_without_kind,
        step matches Step::Run { statement, .. } && probes(f, rows, statement, reply, after),
    ensures
        step matches Step::Run { check, .. } && (storage_verdict(check, reply) is Ok <==> feature(
            f,
            n,
        )),
        feature(f, n) ==> grown(after, n + 1),
        n == 6 ==> (reply is Ok <==> f.stored_generated_column),
{
    let statement = step->statement;
    let kind = "core"@;
    if n == 1 {
        lemma_bound(statement->Execute_params@, parent(), 0);
        lemma_bound(statement->Execute_params@, parent(), 1);
    } else if n == 2 {
        lemma_bound(statement->Query_params@, core_child(1), 0);
        lemma_bound(statement->Query_params@, core_child(1), 1);
        lemma_bound(statement->Query_params@, core_child(1), 2);
        lemma_bound(statement->Query_params@, core_child(1), 3);
        lemma_bound(statement->Query_params@, core_child(1), 4);
    } else if n == 3 || n == 4 {
        let said = child(if n == 3 { 2 } else { 3 }, 7, 11, "{\"kind\":null}"@);
        lemma_bound(statement->Execute_params@, said, 0);
        lemma_bound(statement->Execute_params@, said, 1);
        lemma_bound(statement->Execute_params@, said, 2);
        lemma_bound(statement->Execute_params@, said, 3);
    } else if n == 5 {
        lemma_bound(statement->Execute_params@, core_child(4), 0);
        lemma_bound(statement->Execute_params@, core_child(4), 1);
        lemma_bound(statement->Execute_params@, core_child(4), 2);
        lemma_bound(statement->Execute_params@, core_child(4), 3);
        lemma_bound(statement->Execute_params@, core_child(4), 4);
        lemma_rejected(reply, "unique");
    } else if n == 6 {
        if let Err(error) = reply {
            lemma_has_part(error.text@, "experimental-generated-columns"@);
        }
    } else if n == 11 {
        let said = child(5, 999, 999, "{\"kind\":\"invalid\"}"@);
        lemma_bound(statement->Execute_params@, said, 0);
        lemma_bound(statement->Execute_params@, said, 1);
        lemma_bound(statement->Execute_params@, said, 2);
        lemma_bound(statement->Execute_params@, said, 3);
        lemma_rejected(reply, "foreign key");
    }
}

proof fn lemma_rejected(reply: Reply, fragment: &'static str)
    requires
        fragment@ == "unique"@ || fragment@ == "foreign key"@,
    ensures
        forall|feature: &'static str| #[trigger]
            storage_verdict(StorageCheck::Rejected { fragment, feature }, reply) is Ok
                <==> names_constraint(reply, fragment@),
{
    reveal_strlit("unique");
    reveal_strlit("foreign key");
    assert(lower_text(fragment@) =~= fragment@);
    if let Err(error) = reply {
        if let Some(message) = error.constraint {
            lemma_named(message@, fragment@);
        }
    }
}

proof fn lemma_found_up_to(
    f: Features,
    steps: Seq<Step<StorageCheck>>,
    h: History<StorageCheck>,
    held: Seq<Brood>,
    n: int,
)
    requires
        is_probe(steps),
        is_history(End::Rollback, steps, h),
        probed_along(f, h, held),
        h.phases[h.replies.len() as int] is Closed,
        0 <= n <= 12,
        forall|k: int| 0 <= k < n ==> #[trigger] feature(f, k),
    ensures
        h.replies.len() > n,
        h.replies[0] is Ok,
        irrefutable_up_to(steps, h, n),
        grown(held[n + 1], n),
        n > 6 ==> (h.replies[7] is Ok <==> f.stored_generated_column),
        n < 12 ==> {
            &&& h.replies.len() > n + 1
            &&& h.requests[n + 1] == Request::Run(steps[n]->statement)
            &&& probes(f, held[n + 1], steps[n]->statement, h.replies[n + 1], held[n + 2])
        },
    decreases n,
{
    if n == 0 {
        assert(h.replies.len() > 0);
        let first = h.replies[0];
        assert(serves_probe(f, held[0], h.requests[0], first, held[0int + 1]));
    } else {
        let k = n - 1;
        lemma_found_up_to(f, steps, h, held, k);
        assert(feature(f, k));
        if k > 4 {
            assert(feature(f, 4));
        }
        lemma_step_found(f, steps[k], steps, k, held[k + 1], h.replies[k + 1], held[k + 2]);
        if let Step::Run { check, .. } = steps[k] {
            assert(cannot_refuse(check, h.replies[k + 1]));
        }
    }
    law_accepted_steps_go_on(End::Rollback, steps, h, n);
    if n < 12 {
        assert(steps[n] is Run);
        assert(h.phases[n + 1] is Running);
        let q = n + 1;
        assert(h.replies.len() > q);
        assert(serves_probe(f, held[q], h.requests[q], h.replies[q], held[q + 1]));
    }
}

/// The probe of an engine that begins and rolls back when it is asked to ends with
/// a report exactly if the engine has every feature that the ledger relies on. The
/// report then says so, and says of stored generated columns whether the engine
/// has them.
pub proof fn law_probe_finds_the_features(
    f: Features,
    begun: (Scope<StorageCheck>, Request),
    h: History<StorageCheck>,
    held: Seq<Brood>,
    ending: Ending<StorageError>,
    r: Result<SqlFeatureReport, StorageError>,
)
    requires
        call_ensures(probe_required_sql, (), begun),
        plays(begun, h),
        probed_along(f, h, held),
        h.phases[h.replies.len() as int] == Phase::<StorageCheck>::Closed(ending),
        call_ensures(probe_report, (ending,), r),
    ensures
        r is Ok <==> suffices(f),
        r matches Ok(report) ==> report == (SqlFeatureReport {
            recursive_cte: true,
            window_function: true,
            row_value_comparison: true,
            partial_unique_null_semantics: true,
            generated_stored_column: f.stored_generated_column,
            returning: true,
            json_functions: true,
            composite_foreign_key: true,
        }),
{
    let steps = begun.0.phase->Opening_0.steps();
    lemma_history(begun, steps, h);
    let last = h.replies.len() as int;
    if suffices(f) {
        lemma_found_up_to(f, steps, h, held, 12);
        law_accepted_steps_go_on(End::Rollback, steps, h, 12);
        assert(h.replies.len() > 13);
        assert(serves_probe(f, held[13], h.requests[13], h.replies[13], held[13int + 1]));
        assert(follows(
            End::Rollback,
            h.phases[13],
            h.replies[13],
            h.phases[13int + 1],
            h.requests[13int + 1],
        ));
        law_closed_scope_stays(End::Rollback, steps, h, 14, last);
        let complete = ending->RolledBack_outcome->Ok_0;
        law_probe_reports_what_the_engine_did(
            steps,
            h,
            last,
            complete,
            ending->RolledBack_rollback,
        );
    } else {
        assert(!feature(f, 2) || !feature(f, 4) || !feature(f, 5) || !feature(f, 7) || !feature(
            f,
            8,
        ) || !feature(f, 9) || !feature(f, 10) || !feature(f, 11));
        let n = lemma_first_lack(f, 12);
        lemma_found_up_to(f, steps, h, held, n);
        if n > 4 {
            assert(feature(f, 4));
        }
        lemma_step_found(f, steps[n], steps, n, held[n + 1], h.replies[n + 1], held[n + 2]);
        let check = steps[n]->check;
        assert(!takes(check, h.replies[n + 1])) by {
            if takes(check, h.replies[n + 1]) {
                let present = choose|present: bool| #[trigger]
                    check.judged(h.replies[n + 1], Ok::<bool, StorageError>(present));
                assert(storage_verdict(check, h.replies[n + 1]) == Ok::<bool, StorageFailure>(
                    present,
                ));
            }
        }
        law_accepted_steps_go_on(End::Rollback, steps, h, n);
        let q = n + 1;
        assert(follows(
            End::Rollback,
            h.phases[q],
            h.replies[q],
            h.phases[q + 1],
            h.requests[q + 1],
        ));
        assert(steps[q - 1] == steps[n]);
        law_refused_reply_is_the_last(End::Rollback, steps, h, q);
        assert(h.replies.len() > n + 2);
        law_first_refusal_is_the_outcome(End::Rollback, steps, h, n, check);
        law_closed_scope_stays(End::Rollback, steps, h, n + 3, last);
    }
}

proof fn lemma_first_lack(f: Features, m: int) -> (n: int)
    requires
        0 <= m <= 12,
        exists|k: int| 0 <= k < m && !(#[trigger] feature(f, k)),
    ensures
        0 <= n < m,
        !feature(f, n),
        forall|k: int| 0 <= k < n ==> #[trigger] feature(f, k),
    decreases m,
{
    if exists|k: int| 0 <= k < m - 1 && !(#[trigger] feature(f, k)) {
        lemma_first_lack(f, m - 1)
    } else {
        m - 1
    }
}

/// The pinned engine is reported to have everything but stored generated columns.
pub proof fn law_pinned_engine_lacks_generated_columns(r: SqlFeatureReport)
    requires
        call_ensures(SqlFeatureReport::pinned_engine, (), r),
    ensures
        !r.generated_stored_column,
        r.recursive_cte && r.window_function && r.row_value_comparison,
        r.partial_unique_null_semantics && r.returning,
        r.json_functions && r.composite_foreign_key,
{
}

/// The probe leaves no trace in an engine with transactions whose rollback does
/// not fail, whatever it finds.
pub proof fn law_probe_is_undone<S>(
    begun: (Scope<StorageCheck>, Request),
    h: History<StorageCheck>,
    held: Seq<S>,
    i: int,
    ending: Ending<StorageError>,
)
    requires
        call_ensures(probe_required_sql, (), begun),
        plays(begun, h),
        transactional(h, held),
        0 <= i <= h.replies.len(),
        h.phases[i] == Phase::<StorageCheck>::Closed(ending),
        ending matches Ending::RolledBack { rollback, .. } ==> rollback is Ok,
    ensures
        held[i] == held[0],
        ending !is Committed,
{
    let steps = begun.0.phase->Opening_0.steps();
    lemma_history(begun, steps, h);
    law_probe_leaves_no_trace(steps, h, held, i, ending);
}

} // verus!
