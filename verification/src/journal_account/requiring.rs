//! What is required of single values and rows, what is asked for them, and how
//! failures are told apart.
use crate::journal_account::admitting::{says_codec, says_corrupt};
use crate::journal_account::codec::{encode_event_id, encode_id, event_id, parse_id};
use crate::journal_account::entity::{
    validate_account_projection, validate_journal_projection, Entity, Folded,
};
use crate::journal_account::error::{kind_name, EntityKind, RepositoryError};
use crate::journal_account::expect::{
    classify_account_constraint, classify_projection_constraint, require_identity_free,
    require_one_projection_change, require_stored_version, RepositoryCheck,
};
use crate::journal_account::keeping::{says_missing, says_stale, says_taken};
use crate::journal_account::load::{find_one_id, Load, LoadRequest, Told};
use crate::journal_account::record::{
    require_entity_version, require_initial, require_non_account_set, texts_of, AccountRecord,
    FirstEvent, JournalRecord,
};
use crate::journal_account::reporting::{gives_nothing, gives_rows, says_storage, says_violated};
use crate::journal_account::statements::{
    appends_event, identity_step, insert_events, places, version_step,
};
use crate::journal_account::stored::{
    ask_events, ask_projection, engine_error, event_of, events_of, first_broken, load_projection,
    load_raw_events, stream_of, Projection, RawEvent,
};
use crate::json::json_value;
use crate::letters::{lemma_decimal, writes_number};
use crate::storage::engine::{params_of, EngineError, Param, Reply, Row, SqlValue, Statement};
use crate::storage::error::StorageError;
use crate::storage::judging::{gives_number, gives_text, lemma_named, says_engine};
use crate::storage::play::{
    bound_number, bound_text, column_number, column_option, column_text,
};
use crate::storage::scope::Step;
use crate::text::{debug_form, decimal, lower_text};
use crate::time::rfc3339_instant;
use crate::wording::{called, has_number, has_numbers, lemma_has_number};
use std::collections::VecDeque;
use vstd::prelude::*;
use vstd::string::*;

verus! {

/// A failed write is reported as a taken identity exactly if a constraint was
/// violated: the one that is given, or for an account its code if the engine names
/// that and else its identifier. Any other failure is reported as it is.
pub proof fn law_violations_are_told_apart(
    failure: StorageError,
    entity_kind: EntityKind,
    field: &'static str,
    value: &str,
    r: RepositoryError,
    id: &str,
    code: &str,
    account: RepositoryError,
)
    requires
        call_ensures(
            classify_projection_constraint,
            (failure, entity_kind, field, value),
            r,
        ),
        call_ensures(classify_account_constraint, (failure, id, code), account),
    ensures
        match failure {
            StorageError::Turso(error) => {
                &&& error.constraint is Some ==> says_taken(r, entity_kind, field@, value@)
                &&& error.constraint is None ==> says_storage(r, error)
                &&& says_violated(account, error, id@, code@)
            },
            _ => {
                &&& r matches RepositoryError::Storage(found)
                &&& found@ == failure@
                &&& account matches RepositoryError::Storage(other)
                &&& other@ == failure@
            },
        },
{
    reveal_strlit("cala_accounts.code");
    assert(lower_text("cala_accounts.code"@) =~= "cala_accounts.code"@);
    if let StorageError::Turso(error) = failure {
        if let Some(message) = error.constraint {
            lemma_named(message@, "cala_accounts.code"@);
        }
    }
}

/// An update must change one row, and says how many it changed otherwise.
pub proof fn law_one_row_is_changed(
    changed: u64,
    entity_kind: EntityKind,
    id: &str,
    r: Result<(), RepositoryError>,
)
    requires
        call_ensures(require_one_projection_change, (changed, entity_kind, id), r),
    ensures
        changed == 1 ==> r is Ok,
        changed != 1 ==> (r matches Err(
            RepositoryError::CorruptState { entity_kind: found, id: of, reason },
        ) && found == entity_kind && of@ == id@ && has_number(
            reason@,
            "projection update changed "@,
            changed as int,
            " rows"@,
        )),
{
    lemma_has_number("projection update changed "@, changed as int, " rows"@);
}

/// A stored version must be there and be the expected one.
pub proof fn law_stored_versions_are_required(
    reply: Reply,
    entity_kind: EntityKind,
    id: &str,
    expected: u32,
    r: Result<(), RepositoryError>,
    actual: i64,
)
    requires
        call_ensures(require_stored_version, (&reply, entity_kind, id, expected), r),
    ensures
        r is Ok <==> gives_number(reply, expected as i64),
        gives_nothing(reply) ==> (r matches Err(error) && says_missing(error, entity_kind, id@)),
        gives_number(reply, actual) && actual != expected && 0 <= actual <= 4_294_967_295 ==> (
        r matches Err(error) && says_stale(error, entity_kind, id@, expected, actual)),
        gives_number(reply, actual) && !(0 <= actual <= 4_294_967_295) ==> (r matches Err(
            RepositoryError::CorruptState { entity_kind: found, id: of, .. },
        ) && found == entity_kind && of@ == id@),
        (reply matches Err(failure) ==> (r matches Err(error) && says_storage(error, failure))),
{
}

/// An identity is free exactly if nothing bears it, and is else reported as taken.
pub proof fn law_identities_must_be_free(
    reply: Reply,
    entity_kind: EntityKind,
    field: &'static str,
    value: String,
    r: Result<(), RepositoryError>,
)
    requires
        call_ensures(require_identity_free, (&reply, entity_kind, field, value), r),
    ensures
        r is Ok <==> gives_nothing(reply),
        gives_rows(reply) ==> (r matches Err(error) && says_taken(
            error,
            entity_kind,
            field@,
            value@,
        )),
        (reply matches Err(failure) ==> (r matches Err(error) && says_storage(error, failure))),
{
}

/// What bears an identity is found by the identifier in the first row, and else
/// reported as missing under that identity.
pub proof fn law_identifiers_are_found(
    reply: Reply,
    entity_kind: EntityKind,
    field: &'static str,
    value: &str,
    r: Result<u128, RepositoryError>,
    text: &str,
    parsed: Result<u128, RepositoryError>,
)
    requires
        call_ensures(find_one_id, (&reply, entity_kind, field, value), r),
        call_ensures(parse_id, (text, entity_kind), parsed),
    ensures
        gives_text(reply, text@) ==> match parsed {
            Ok(id) => r == Ok::<u128, RepositoryError>(id),
            Err(reason) => r matches Err(error) && error@ == reason@,
        },
        gives_nothing(reply) ==> (r matches Err(error) && says_missing(
            error,
            entity_kind,
            field@ + "="@ + debug_form(value@),
        )),
        (reply matches Err(failure) ==> (r matches Err(error) && says_storage(error, failure))),
        (forall|other: Seq<char>| !gives_text(reply, other)) ==> r is Err,
{
    if r is Ok {
        assert(gives_text(reply, reply->Ok_0.rows@[0].cells@[0].text->Ok_0@));
    }
}

/// A new entity begins with the values of its first event, which must initialise
/// it.
pub proof fn law_entities_begin_initialised<R>(
    entity_kind: EntityKind,
    id: u128,
    text: String,
    first: Option<FirstEvent<R>>,
    r: Result<R, RepositoryError>,
)
    requires
        call_ensures(encode_id, (id,), text),
        call_ensures(require_initial::<R>, (entity_kind, id, first), r),
    ensures
        match first {
            Some(FirstEvent::Initialized(record)) => r == Ok::<R, RepositoryError>(record),
            Some(FirstEvent::Updated) => r matches Err(error) && says_corrupt(
                error,
                entity_kind,
                text@,
                "first event is not initialized"@,
            ),
            None => r matches Err(error) && says_corrupt(
                error,
                entity_kind,
                text@,
                "missing initialized event"@,
            ),
        },
{
}

/// Accounts that back account sets are refused, and a changed entity must carry as
/// many stored events as expected.
pub proof fn law_entities_are_required_whole(
    is_account_set: bool,
    plain: Result<(), RepositoryError>,
    entity_kind: EntityKind,
    id: String,
    expected: u32,
    persisted: usize,
    r: Result<(), RepositoryError>,
)
    requires
        call_ensures(require_non_account_set, (is_account_set,), plain),
        call_ensures(require_entity_version, (entity_kind, id, expected, persisted), r),
    ensures
        is_account_set ==> (plain matches Err(RepositoryError::AccountSetUnsupported)),
        !is_account_set ==> plain is Ok,
        persisted == expected ==> r is Ok,
        persisted != expected && persisted <= 4_294_967_295 ==> (r matches Err(error)
            && says_stale(error, entity_kind, id@, expected, persisted as i64)),
        persisted > 4_294_967_295 ==> (r matches Err(error) && says_corrupt(
            error,
            entity_kind,
            id@,
            "persisted event count exceeds u32"@,
        )),
{
}

/// The row of an entity is asked for by its identifier, in the table of its kind,
/// and its events by kind and identifier, in their order.
pub proof fn law_entities_are_asked_for_by_identifier(
    entity_kind: EntityKind,
    id: &str,
    projection: Statement,
    events: Statement,
    failure: EngineError,
    error: RepositoryError,
)
    requires
        call_ensures(ask_projection, (entity_kind, id), projection),
        call_ensures(ask_events, (entity_kind, id), events),
        call_ensures(engine_error, (failure,), error),
    ensures
        projection matches Statement::Query { sql, params, rows } && params@.len() == 1
            && params@[0] is Text && bound_text(params@, 0) == id@ && rows is First && sql@
            == match entity_kind {
            EntityKind::Journal =>
                "SELECT version, name, NULL, status, payload, created_at, modified_at FROM cala_journals WHERE id = ?1"@,
            EntityKind::Account =>
                "SELECT version, name, code, status, payload, created_at, modified_at FROM cala_accounts WHERE id = ?1"@,
        },
        events matches Statement::Query { sql, params, rows } && params@.len() == 2 && params@[0]
            is Text && params@[1] is Text && bound_text(params@, 0) == called(entity_kind)
            && bound_text(params@, 1) == id@ && rows is All && sql@
            == "SELECT entity_sequence, event_type, event_payload, recorded_at FROM cala_entity_events WHERE entity_kind = ?1 AND entity_id = ?2 ORDER BY entity_sequence ASC"@,
        says_storage(error, failure),
{
    if let Statement::Query { params, .. } = projection {
        let said = seq![Param::Text(id@)];
        lemma_params(params@, said, 0);
    }
    if let Statement::Query { params, .. } = events {
        let said = seq![Param::Text(kind_name(entity_kind)), Param::Text(id@)];
        lemma_params(params@, said, 0);
        lemma_params(params@, said, 1);
    }
}

proof fn lemma_params(params: Seq<SqlValue>, said: Seq<Param>, i: int)
    requires
        params_of(params) == said,
        0 <= i < said.len(),
    ensures
        params.len() == said.len(),
        match said[i] {
            Param::Integer(value) => params[i] is Integer && bound_number(params, i) == value,
            Param::Text(text) => params[i] is Text && bound_text(params, i) == text,
        },
{
    assert(params_of(params).len() == params.len());
    assert(params_of(params)[i] == params[i]@);
}

/// The version of an entity is asked for in the table of its kind and must be the
/// expected one; an identity is asked for with the identifier of the entity that
/// may bear it, and must be free.
pub proof fn law_steps_ask_what_they_check(
    entity_kind: EntityKind,
    id: &str,
    expected: u32,
    version: Step<RepositoryCheck>,
    sql: &'static str,
    field: &'static str,
    value: &str,
    identity: Step<RepositoryCheck>,
)
    requires
        call_ensures(version_step, (entity_kind, id, expected), version),
        call_ensures(identity_step, (sql, entity_kind, id, field, value), identity),
    ensures
        version matches Step::Run { statement, check } && (statement matches Statement::Query {
            sql: says,
            params,
            ..
        } && params@.len() == 1 && params@[0] is Text && bound_text(params@, 0) == id@ && says@
            == match entity_kind {
            EntityKind::Journal => "SELECT version FROM cala_journals WHERE id = ?1"@,
            EntityKind::Account => "SELECT version FROM cala_accounts WHERE id = ?1"@,
        }) && (check matches RepositoryCheck::StoredVersion {
            entity_kind: of,
            id: sought,
            expected: wanted,
        } && of == entity_kind && sought@ == id@ && wanted == expected),
        identity matches Step::Run { statement, check } && (statement matches Statement::Query {
            sql: says,
            params,
            ..
        } && params@.len() == 2 && params@[0] is Text && params@[1] is Text && bound_text(
            params@,
            0,
        ) == id@ && bound_text(params@, 1) == value@ && says@ == sql@) && (
        check matches RepositoryCheck::IdentityAvailable {
            entity_kind: of,
            field: named,
            value: taken,
        } && of == entity_kind && named@ == field@ && taken@ == value@),
{
    if let Step::Run { statement: Statement::Query { params, .. }, .. } = version {
        lemma_params(params@, seq![Param::Text(id@)], 0);
    }
    if let Step::Run { statement: Statement::Query { params, .. }, .. } = identity {
        let said = seq![Param::Text(id@), Param::Text(value@)];
        lemma_params(params@, said, 0);
        lemma_params(params@, said, 1);
    }
}

/// New events are appended in their order behind the stored ones, each under its
/// own name and number with its type, its payload and the time. Types and payloads
/// must be as many, and every number must fit.
pub proof fn law_events_are_appended_in_order(
    steps: VecDeque<Step<RepositoryCheck>>,
    entity_kind: EntityKind,
    id: &str,
    offset: u32,
    event_types: Vec<String>,
    payloads: Vec<String>,
    recorded_at: &str,
    r: VecDeque<Step<RepositoryCheck>>,
    i: int,
    sequence: u32,
    name: String,
)
    requires
        call_ensures(
            insert_events,
            (steps, entity_kind, id, offset, &event_types, &payloads, recorded_at),
            r,
        ),
        0 <= i < payloads@.len(),
        sequence == offset + i + 1,
        call_ensures(encode_event_id, (entity_kind, id, sequence), name),
    ensures
        r@.len() > steps@.len(),
        r@.take(steps@.len() as int) == steps@,
        event_types@.len() != payloads@.len() ==> r@.len() == steps@.len() + 1 && (r@.last()
            matches Step::Refuse(error) && says_corrupt(
            error,
            entity_kind,
            id@,
            "event type/payload counts differ"@,
        )),
        event_types@.len() == payloads@.len() && payloads@.len() <= 4_294_967_295 - offset
            ==> r@.len() == steps@.len() + payloads@.len(),
        event_types@.len() == payloads@.len() && payloads@.len() > 4_294_967_295 - offset ==> (
        r@.last() matches Step::Refuse(error) && says_codec(error, "event sequence overflow"@)),
        event_types@.len() == payloads@.len() ==> appends(
            r@[steps@.len() + i],
            name@,
            entity_kind,
            id@,
            sequence,
            event_types@[i]@,
            payloads@[i]@,
            recorded_at@,
        ),
{
    let tail = r@.skip(steps@.len() as int);
    assert(texts_of(payloads@).len() == payloads@.len());
    assert(texts_of(event_types@).len() == event_types@.len());
    assert(tail.len() == r@.len() - steps@.len());
    if tail.len() > 0 {
        assert(tail.last() == r@.last());
        assert(tail[0] == r@[steps@.len() as int]);
    }
    if event_types@.len() == payloads@.len() {
        let n = places(offset, payloads@.len());
        if i < n {
            assert(tail[i] == r@[steps@.len() + i]);
            assert(texts_of(payloads@)[i] == payloads@[i]@);
            assert(texts_of(event_types@)[i] == event_types@[i]@);
            assert(appends_event(
                tail[i],
                entity_kind,
                id@,
                offset + i + 1,
                event_types@[i]@,
                payloads@[i]@,
                recorded_at@,
            ));
            let said = seq![
                Param::Text(event_id(entity_kind, id@, sequence as int)),
                Param::Text(kind_name(entity_kind)),
                Param::Text(id@),
                Param::Integer(sequence as i64),
                Param::Text(event_types@[i]@),
                Param::Text(payloads@[i]@),
                Param::Text(recorded_at@),
            ];
            if let Step::Run { statement: Statement::Execute { params, .. }, .. } = tail[i] {
                lemma_params(params@, said, 0);
                lemma_params(params@, said, 1);
                lemma_params(params@, said, 2);
                lemma_params(params@, said, 3);
                lemma_params(params@, said, 4);
                lemma_params(params@, said, 5);
                lemma_params(params@, said, 6);
            }
        }
    }
}

/// Whether `step` appends an event with these columns.
pub open spec fn appends(
    step: Step<RepositoryCheck>,
    name: Seq<char>,
    entity_kind: EntityKind,
    id: Seq<char>,
    sequence: u32,
    event_type: Seq<char>,
    payload: Seq<char>,
    recorded_at: Seq<char>,
) -> bool {
    step matches Step::Run { statement, .. } && (statement matches Statement::Execute {
        sql,
        params,
    } && params@.len() == 7 && sql@
        == "INSERT INTO cala_entity_events (event_id, entity_kind, entity_id, entity_sequence, event_type, event_payload, recorded_at) VALUES (?1, ?2, ?3, ?4, ?5, ?6, ?7)"@
        && params@[0] is Text && bound_text(params@, 0) == name && params@[1] is Text
        && bound_text(params@, 1) == called(entity_kind) && params@[2] is Text && bound_text(
        params@,
        2,
    ) == id && params@[3] is Integer && bound_number(params@, 3) == sequence && params@[4] is Text
        && bound_text(params@, 4) == event_type && params@[5] is Text && bound_text(params@, 5)
        == payload && params@[6] is Text && bound_text(params@, 6) == recorded_at)
}

/// Whether the columns of `row` are what `projection` says.
pub open spec fn is_row_of(row: Row, projection: Projection) -> bool {
    &&& column_number(row, 0, projection.version as i64)
    &&& column_text(row, 1, projection.name@)
    &&& column_option(
        row,
        2,
        match projection.code {
            Some(code) => Some(code@),
            None => None,
        },
    )
    &&& column_text(row, 3, projection.status@)
    &&& column_text(row, 4, projection.payload@)
    &&& exists|created: Seq<char>| #[trigger]
        column_text(row, 5, created) && rfc3339_instant(created) == Ok::<(i64, u32), Seq<char>>(
            projection.created_at.at(),
        )
    &&& exists|modified: Seq<char>| #[trigger]
        column_text(row, 6, modified) && rfc3339_instant(modified) == Ok::<(i64, u32), Seq<char>>(
            projection.modified_at.at(),
        )
}

/// What is read of an entity is what the first row says, column by column. Without
/// a row the entity is reported as missing.
pub proof fn law_rows_are_read_as_entities(
    reply: Reply,
    entity_kind: EntityKind,
    id: &str,
    r: Result<Projection, RepositoryError>,
)
    requires
        call_ensures(load_projection, (&reply, entity_kind, id), r),
    ensures
        r matches Ok(projection) ==> (reply matches Ok(answer) && answer.rows@.len() > 0
            && is_row_of(answer.rows@[0], projection)),
        gives_nothing(reply) ==> (r matches Err(error) && says_missing(error, entity_kind, id@)),
        (reply matches Err(failure) ==> (r matches Err(error) && says_storage(error, failure))),
{
    if let Ok(projection) = r {
        let row = reply->Ok_0.rows@[0];
        let created = row.cells@[5].text->Ok_0@;
        let modified = row.cells@[6].text->Ok_0@;
        assert(column_text(row, 5, created));
        assert(column_text(row, 6, modified));
    }
}

/// Whether `row` is the event `event`, at place `place` of its stream.
pub open spec fn is_row_of_event(row: Row, event: RawEvent, place: int) -> bool {
    &&& event.sequence == place
    &&& column_number(row, 0, event.sequence as i64)
    &&& column_text(row, 1, event.event_type@)
    &&& column_text(row, 2, event.payload@)
    &&& json_value(event.payload@) is Ok
    &&& exists|recorded: Seq<char>| #[trigger]
        column_text(row, 3, recorded) && rfc3339_instant(recorded) == Ok::<(i64, u32), Seq<char>>(
            event.recorded_at.at(),
        )
}

/// The events of an entity are read as its rows say, numbered from 1 without a
/// gap, as many as its version and to the end.
pub proof fn law_rows_are_read_as_events(
    reply: Reply,
    entity_kind: EntityKind,
    id: &str,
    version: u32,
    r: Result<Vec<RawEvent>, RepositoryError>,
)
    requires
        call_ensures(load_raw_events, (&reply, entity_kind, id, version), r),
    ensures
        r matches Ok(events) ==> {
            &&& reply matches Ok(answer)
            &&& answer.interrupted is None
            &&& answer.rows@.len() == version
            &&& events@.len() == version
            &&& forall|i: int|
                0 <= i < version ==> #[trigger] is_row_of_event(answer.rows@[i], events@[i], i + 1)
        },
        (reply matches Err(failure) ==> (r matches Err(error) && says_storage(error, failure))),
{
    if let Ok(events) = r {
        let rows = reply->Ok_0.rows@;
        let stream = stream_of(rows, entity_kind, id@);
        assert(events_of(events@) == stream);
        assert(events_of(events@).len() == events@.len());
        assert(stream.len() == rows.len());
        assert forall|i: int| 0 <= i < version implies #[trigger] is_row_of_event(
            rows[i],
            events@[i],
            i + 1,
        ) by {
            lemma_unbroken(rows, entity_kind, id@, i);
            assert(events_of(events@)[i] == events@[i]@);
            assert(stream[i] == event_of(rows[i], entity_kind, id@, i + 1)->Ok_0);
            let recorded = rows[i].cells@[3].text->Ok_0@;
            assert(column_text(rows[i], 3, recorded));
        }
    }
}

/// Whether `row` can be read as the event at place `place`.
pub open spec fn readable(row: Row, place: int) -> bool {
    &&& 1 <= place <= i32::MAX
    &&& column_number(row, 0, place as i64)
    &&& exists|event_type: Seq<char>| #[trigger] column_text(row, 1, event_type)
    &&& exists|payload: Seq<char>| #[trigger]
        column_text(row, 2, payload) && json_value(payload) is Ok
    &&& exists|recorded: Seq<char>| #[trigger]
        column_text(row, 3, recorded) && rfc3339_instant(recorded) is Ok
}

/// Events are read exactly if each can be read at its place, they came to the end
/// and are as many as the version. The first number that is not that of its place
/// is reported, and so is a wrong number of events.
pub proof fn law_unread_events_are_reported(
    reply: Reply,
    entity_kind: EntityKind,
    id: &str,
    version: u32,
    r: Result<Vec<RawEvent>, RepositoryError>,
    i: int,
    found: i64,
)
    requires
        call_ensures(load_raw_events, (&reply, entity_kind, id, version), r),
        reply matches Ok(answer) && answer.interrupted is None,
    ensures
        r is Ok <==> reply->Ok_0.rows@.len() == version && forall|k: int|
            0 <= k < version ==> readable(#[trigger] reply->Ok_0.rows@[k], k + 1),
        reply->Ok_0.rows@.len() != version && (forall|k: int|
            0 <= k < reply->Ok_0.rows@.len() ==> readable(
                #[trigger] reply->Ok_0.rows@[k],
                k + 1,
            )) ==> (r matches Err(
            RepositoryError::CorruptState { entity_kind: of, id: sought, reason },
        ) && of == entity_kind && sought@ == id@ && has_numbers(
            reason@,
            "projection version "@,
            version as int,
            " disagrees with "@,
            reply->Ok_0.rows@.len() as int,
            " stored events"@,
        )),
        0 <= i < reply->Ok_0.rows@.len() && i < i32::MAX && (forall|k: int|
            0 <= k < i ==> readable(#[trigger] reply->Ok_0.rows@[k], k + 1)) && column_number(
            reply->Ok_0.rows@[i],
            0,
            found,
        ) && found != i + 1 && i32::MIN <= found <= i32::MAX ==> (r matches Err(
            RepositoryError::CorruptState { entity_kind: of, id: sought, reason },
        ) && of == entity_kind && sought@ == id@ && has_numbers(
            reason@,
            "expected event sequence "@,
            i + 1,
            ", found "@,
            found as int,
            Seq::empty(),
        )),
{
    let rows = reply->Ok_0.rows@;
    assert forall|k: int| 0 <= k < rows.len() implies (event_of(
        #[trigger] rows[k],
        entity_kind,
        id@,
        k + 1,
    ) is Ok) == readable(rows[k], k + 1) by {
        lemma_readable(rows[k], entity_kind, id@, k + 1);
    }
    if !exists|j: int| first_broken(rows, entity_kind, id@, j) {
        assert forall|k: int| 0 <= k < rows.len() implies readable(#[trigger] rows[k], k + 1) by {
            lemma_unbroken(rows, entity_kind, id@, k);
            assert(event_of(rows[k], entity_kind, id@, k + 1) is Ok);
        }
    } else {
        let j = choose|j: int| first_broken(rows, entity_kind, id@, j);
        assert(first_broken(rows, entity_kind, id@, j));
        assert(!readable(rows[j], j + 1)) by {
            assert(event_of(rows[j], entity_kind, id@, j + 1) is Err);
        }
        if 0 <= i < rows.len() && (forall|k: int|
            0 <= k < i ==> readable(#[trigger] rows[k], k + 1)) && column_number(rows[i], 0, found)
            && found != i + 1 {
            assert(!(j < i));
            if i < j {
                assert(event_of(rows[i], entity_kind, id@, i + 1) is Ok);
                assert(readable(rows[i], i + 1));
            }
        }
    }
    if 0 <= i < rows.len() && i < i32::MAX && column_number(rows[i], 0, found) && found != i + 1 {
        assert(!readable(rows[i], i + 1));
        assert(event_of(rows[i], entity_kind, id@, i + 1) is Err);
        let front = "expected event sequence "@;
        lemma_decimal(i + 1);
        lemma_decimal(found as int);
        assert(writes_number(decimal(i + 1), i + 1) && writes_number(
            decimal(found as int),
            found as int,
        ));
        assert(front + decimal(i + 1) + ", found "@ + decimal(found as int) =~= front + decimal(
            i + 1,
        ) + ", found "@ + decimal(found as int) + Seq::<char>::empty());
        if forall|k: int| 0 <= k < i ==> readable(#[trigger] rows[k], k + 1) {
            assert(first_broken(rows, entity_kind, id@, i)) by {
                assert forall|k: int| 0 <= k < i implies event_of(
                    #[trigger] rows[k],
                    entity_kind,
                    id@,
                    k + 1,
                ) is Ok by {
                    assert(readable(rows[k], k + 1));
                }
            }
        }
    }
    let length = rows.len() as int;
    lemma_decimal(version as int);
    lemma_decimal(length);
    assert(writes_number(decimal(version as int), version as int) && writes_number(
        decimal(length),
        length,
    ));
}

proof fn lemma_readable(row: Row, entity_kind: EntityKind, id: Seq<char>, place: int)
    requires
        1 <= place,
    ensures
        event_of(row, entity_kind, id, place) is Ok <==> readable(row, place),
{
    if event_of(row, entity_kind, id, place) is Ok {
        assert(column_text(row, 1, row.cells@[1].text->Ok_0@));
        assert(column_text(row, 2, row.cells@[2].text->Ok_0@));
        assert(column_text(row, 3, row.cells@[3].text->Ok_0@));
    }
}

proof fn lemma_unbroken(rows: Seq<Row>, entity_kind: EntityKind, id: Seq<char>, i: int)
    requires
        0 <= i < rows.len(),
        !exists|j: int| first_broken(rows, entity_kind, id, j),
    ensures
        event_of(rows[i], entity_kind, id, i + 1) is Ok,
    decreases i,
{
    assert forall|k: int| 0 <= k < i implies event_of(
        #[trigger] rows[k],
        entity_kind,
        id,
        k + 1,
    ) is Ok by {
        lemma_unbroken(rows, entity_kind, id, k);
    }
    assert(!first_broken(rows, entity_kind, id, i));
}

/// A row that disagrees with its events is reported as corrupt under the
/// identifier of the entity, and one whose payload is no JSON by the reason.
pub proof fn law_disagreements_are_reported(
    journal: Folded<JournalRecord>,
    account: Folded<AccountRecord>,
    projection: Projection,
    journal_id: String,
    account_id: String,
    r: Result<(), RepositoryError>,
    s: Result<(), RepositoryError>,
)
    requires
        call_ensures(encode_id, (journal.record.id.0,), journal_id),
        call_ensures(encode_id, (account.record.id.0,), account_id),
        call_ensures(validate_journal_projection, (&journal, &projection), r),
        call_ensures(validate_account_projection, (&account, &projection), s),
    ensures
        json_value(projection.payload@) is Ok && journal.values is Ok && r is Err ==> (r matches Err(
            error,
        ) && says_corrupt(
            error,
            EntityKind::Journal,
            journal_id@,
            "projection disagrees with folded event stream"@,
        )),
        json_value(projection.payload@) is Ok && account.values is Ok && s is Err ==> (s matches Err(
            error,
        ) && says_corrupt(
            error,
            EntityKind::Account,
            account_id@,
            "projection disagrees with folded event stream"@,
        )),
        (json_value(projection.payload@) matches Err(reason) ==> (r matches Err(error)
            && says_codec(error, reason)) && (s matches Err(other) && says_codec(other, reason))),
{
}

/// A load reads inside a deferred transaction. One that is told of a failure
/// closes it, if it has begun, and reports that failure; if the close fails too it
/// reports both.
pub proof fn law_failed_loads_are_reported<R: Entity>(
    load: Load<R>,
    need: LoadRequest,
    told: Told<R>,
    next: Load<R>,
    then: LoadRequest,
    reply: Reply,
    last: Load<R>,
    end: LoadRequest,
    result: Option<Result<(), RepositoryError>>,
)
    requires
        call_ensures(Load::<R>::request, (&load,), need),
        call_ensures(Load::<R>::step, (load, told), next),
        call_ensures(Load::<R>::request, (&next,), then),
        call_ensures(Load::<R>::step, (next, Told::<R>::Replied(reply)), last),
        call_ensures(Load::<R>::request, (&last,), end),
        call_ensures(Load::<R>::result, (last,), result),
    ensures
        (need matches LoadRequest::Begin(behavior) ==> behavior is Deferred),
        need is Begin ==> (told matches Told::Replied(Err(failure)) ==> then is Stop && (result
            matches Some(Err(error)) && says_storage(error, failure))),
        need is Ask ==> (told matches Told::Replied(Err(failure)) ==> then is Close && end is Stop
            && match reply {
            Ok(_) => result matches Some(Err(error)) && says_storage(error, failure),
            Err(other) => result matches Some(Err(error)) && says_both_failures(
                error,
                failure,
                other,
            ),
        }),
        need is Decode ==> (told matches Told::Decoded(Err(reason)) ==> then is Close && (reply
            is Ok ==> (result matches Some(Err(RepositoryError::CorruptState { reason: said, .. }))
            && said@ == reason@))),
        need is Fold ==> (told matches Told::Folded(Err(reason)) ==> then is Close && (reply
            is Ok ==> (result matches Some(Err(RepositoryError::CorruptState { reason: said, .. }))
            && said@ == reason@))),
        need is Fold ==> (told matches Told::Folded(Ok(None)) ==> then is Close && (reply is Ok ==> (
        result matches Some(Err(RepositoryError::CorruptState { reason: said, .. })) && said@
            == "projection has no events"@))),
        need is Fold ==> (told matches Told::Folded(Ok(Some(_))) ==> then is Close && end is Stop),
{
    reveal_with_fuel(RepositoryError::view, 3);
    reveal_with_fuel(StorageError::view, 3);
}

/// Whether `error` reports a failure of the engine and that of the close after it.
pub open spec fn says_both_failures(
    error: RepositoryError,
    failure: EngineError,
    close: EngineError,
) -> bool {
    error matches RepositoryError::RollbackFailed { operation, rollback } && says_storage(
        *operation,
        failure,
    ) && says_engine(rollback, close)
}

} // verus!
