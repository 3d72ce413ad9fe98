//! Reading projections and event streams from replies.
use crate::journal_account::codec::{decode_time, decode_version, time_read, version_read};
use crate::journal_account::error::{
    corrupt, corruption, kind_name, EntityKind, RepositoryError, RepositoryFailure,
};
use crate::journal_account::expect::engine_refusal;
use crate::journal_account::record::optional_view;
use crate::json::{json_parse, json_value};
use crate::storage::engine::{
    first_row, first_row_of, integer_at, optional_text_at, params_of, query_all, query_first,
    text_at, text_param, Asked, EngineError, Param, Reply, Row, RowsWanted, Statement,
};
use crate::storage::error::StorageError;
use crate::text::{
    debug_form, debug_text, decimal, decimal_signed, decimal_unsigned, join2, join3, same_text,
};
use crate::time::Timestamp;
use vstd::prelude::*;
use vstd::string::*;

verus! {

/// Reads the projection of a journal.
pub const READ_JOURNAL: &'static str =
    "SELECT version, name, NULL, status, payload, created_at, modified_at \
    FROM cala_journals WHERE id = ?1";

/// Reads the projection of an account.
pub const READ_ACCOUNT: &'static str =
    "SELECT version, name, code, status, payload, created_at, modified_at \
    FROM cala_accounts WHERE id = ?1";

/// Reads the events of an entity in their order.
pub const READ_EVENTS: &'static str =
    "SELECT entity_sequence, event_type, event_payload, recorded_at \
    FROM cala_entity_events WHERE entity_kind = ?1 AND entity_id = ?2 \
    ORDER BY entity_sequence ASC";

/// The stored projection of an entity.
#[derive(Debug)]
pub struct Projection {
    pub version: u32,
    pub name: String,
    pub code: Option<String>,
    pub status: String,
    pub payload: String,
    pub created_at: Timestamp,
    pub modified_at: Timestamp,
}

/// What a projection says.
pub struct ProjectionFacts {
    pub version: u32,
    pub name: Seq<char>,
    pub code: Option<Seq<char>>,
    pub status: Seq<char>,
    pub payload: Seq<char>,
    pub created_at: (i64, u32),
    pub modified_at: (i64, u32),
}

impl View for Projection {
    type V = ProjectionFacts;

    open spec fn view(&self) -> ProjectionFacts {
        ProjectionFacts {
            version: self.version,
            name: self.name@,
            code: optional_view(self.code),
            status: self.status@,
            payload: self.payload@,
            created_at: self.created_at.at(),
            modified_at: self.modified_at.at(),
        }
    }
}

/// A stored event. Its payload is JSON text.
#[derive(Debug)]
pub struct RawEvent {
    pub sequence: i32,
    pub event_type: String,
    pub payload: String,
    pub recorded_at: Timestamp,
}

/// What a stored event says.
pub struct EventFacts {
    pub sequence: i32,
    pub event_type: Seq<char>,
    pub payload: Seq<char>,
    pub recorded_at: (i64, u32),
}

impl View for RawEvent {
    type V = EventFacts;

    open spec fn view(&self) -> EventFacts {
        EventFacts {
            sequence: self.sequence,
            event_type: self.event_type@,
            payload: self.payload@,
            recorded_at: self.recorded_at.at(),
        }
    }
}

/// What a list of stored events says.
pub open spec fn events_of(events: Seq<RawEvent>) -> Seq<EventFacts> {
    Seq::new(events.len(), |i: int| events[i]@)
}

/// What reading column `i` as an instant gives.
pub open spec fn time_at(row: Row, i: int) -> Result<(i64, u32), RepositoryFailure> {
    match text_at(row, i) {
        Err(error) => Err(engine_refusal(error)),
        Ok(text) => time_read(text),
    }
}

fn read_time(row: &Row, i: usize) -> (r: Result<Timestamp, RepositoryError>)
    ensures
        match r {
            Ok(t) => time_at(*row, i as int) == Ok::<(i64, u32), RepositoryFailure>(t.at()),
            Err(error) => time_at(*row, i as int) == Err::<(i64, u32), RepositoryFailure>(error@),
        },
{
    match row.text(i) {
        Err(error) => Err(engine_error(error)),
        Ok(text) => decode_time(text.as_str()),
    }
}

/// Reports a failure of the engine.
pub fn engine_error(error: EngineError) -> (r: RepositoryError)
    ensures
        r@ == engine_refusal(error@),
{
    RepositoryError::Storage(StorageError::Turso(error))
}

/// The question for the projection of an entity.
pub open spec fn projection_question(entity_kind: EntityKind, id: Seq<char>) -> Asked {
    Asked::Query(
        match entity_kind {
            EntityKind::Journal => READ_JOURNAL@,
            EntityKind::Account => READ_ACCOUNT@,
        },
        seq![Param::Text(id)],
        RowsWanted::First,
    )
}

/// Asks for the projection of an entity.
pub fn ask_projection(entity_kind: EntityKind, id: &str) -> (r: Statement)
    ensures
        r@ == projection_question(entity_kind, id@),
{
    let params = vec![text_param(id)];
    proof {
        assert(params_of(params@) =~= seq![Param::Text(id@)]);
    }
    match entity_kind {
        EntityKind::Journal => query_first(READ_JOURNAL, params),
        EntityKind::Account => query_first(READ_ACCOUNT, params),
    }
}

/// What a row says as the projection of an entity. The columns are read from
/// left to right, and the first failure counts.
pub open spec fn projection_of(row: Row, entity_kind: EntityKind, id: Seq<char>) -> Result<
    ProjectionFacts,
    RepositoryFailure,
> {
    match integer_at(row, 0) {
        Err(error) => Err(engine_refusal(error)),
        Ok(value) => match version_read(value, entity_kind, id) {
            Err(failure) => Err(failure),
            Ok(version) => match text_at(row, 1) {
                Err(error) => Err(engine_refusal(error)),
                Ok(name) => match optional_text_at(row, 2) {
                    Err(error) => Err(engine_refusal(error)),
                    Ok(code) => match text_at(row, 3) {
                        Err(error) => Err(engine_refusal(error)),
                        Ok(status) => match text_at(row, 4) {
                            Err(error) => Err(engine_refusal(error)),
                            Ok(payload) => match time_at(row, 5) {
                                Err(failure) => Err(failure),
                                Ok(created_at) => match time_at(row, 6) {
                                    Err(failure) => Err(failure),
                                    Ok(modified_at) => Ok(
                                        ProjectionFacts {
                                            version,
                                            name,
                                            code,
                                            status,
                                            payload,
                                            created_at,
                                            modified_at,
                                        },
                                    ),
                                },
                            },
                        },
                    },
                },
            },
        },
    }
}

/// What a reply says as the projection of an entity.
pub open spec fn projection_read(reply: Reply, entity_kind: EntityKind, id: Seq<char>) -> Result<
    ProjectionFacts,
    RepositoryFailure,
> {
    match first_row_of(reply) {
        Err(error) => Err(engine_refusal(error)),
        Ok(None) => Err(RepositoryFailure::NotFound { entity_kind, id }),
        Ok(Some(row)) => projection_of(row, entity_kind, id),
    }
}

fn read_projection(row: &Row, entity_kind: EntityKind, id: &str) -> (r: Result<
    Projection,
    RepositoryError,
>)
    ensures
        match r {
            Ok(projection) => projection_of(*row, entity_kind, id@) == Ok::<
                ProjectionFacts,
                RepositoryFailure,
            >(projection@),
            Err(error) => projection_of(*row, entity_kind, id@) == Err::<
                ProjectionFacts,
                RepositoryFailure,
            >(error@),
        },
{
    let version = match row.integer(0) {
        Err(error) => return Err(engine_error(error)),
        Ok(value) => match decode_version(value, entity_kind, id) {
            Err(error) => return Err(error),
            Ok(version) => version,
        },
    };
    let name = match row.text(1) {
        Err(error) => return Err(engine_error(error)),
        Ok(name) => name,
    };
    let code = match row.optional_text(2) {
        Err(error) => return Err(engine_error(error)),
        Ok(code) => code,
    };
    let status = match row.text(3) {
        Err(error) => return Err(engine_error(error)),
        Ok(status) => status,
    };
    let payload = match row.text(4) {
        Err(error) => return Err(engine_error(error)),
        Ok(payload) => payload,
    };
    let created_at = match read_time(row, 5) {
        Err(error) => return Err(error),
        Ok(t) => t,
    };
    let modified_at = match read_time(row, 6) {
        Err(error) => return Err(error),
        Ok(t) => t,
    };
    Ok(Projection { version, name, code, status, payload, created_at, modified_at })
}

/// Reads the projection of an entity.
pub fn load_projection(reply: &Reply, entity_kind: EntityKind, id: &str) -> (r: Result<
    Projection,
    RepositoryError,
>)
    ensures
        match r {
            Ok(projection) => projection_read(*reply, entity_kind, id@) == Ok::<
                ProjectionFacts,
                RepositoryFailure,
            >(projection@),
            Err(error) => projection_read(*reply, entity_kind, id@) == Err::<
                ProjectionFacts,
                RepositoryFailure,
            >(error@),
        },
{
    match first_row(reply) {
        Err(error) => Err(engine_error(error)),
        Ok(None) => Err(RepositoryError::NotFound { entity_kind, id: id.to_owned() }),
        Ok(Some(row)) => read_projection(row, entity_kind, id),
    }
}

/// The question for the events of an entity.
pub open spec fn events_question(entity_kind: EntityKind, id: Seq<char>) -> Asked {
    Asked::Query(
        READ_EVENTS@,
        seq![Param::Text(kind_name(entity_kind)), Param::Text(id)],
        RowsWanted::All,
    )
}

/// Asks for the events of an entity.
pub fn ask_events(entity_kind: EntityKind, id: &str) -> (r: Statement)
    ensures
        r@ == events_question(entity_kind, id@),
{
    let params = vec![text_param(entity_kind.name()), text_param(id)];
    proof {
        assert(params_of(params@) =~= seq![Param::Text(kind_name(entity_kind)), Param::Text(id@)]);
    }
    query_all(READ_EVENTS, params)
}

/// What a row says as the event at place `place` of a stream.
pub open spec fn event_of(row: Row, entity_kind: EntityKind, id: Seq<char>, place: int) -> Result<
    EventFacts,
    RepositoryFailure,
> {
    match integer_at(row, 0) {
        Err(error) => Err(engine_refusal(error)),
        Ok(found) => if found < i32::MIN || found > i32::MAX {
            Err(
                corruption(
                    entity_kind,
                    id,
                    "event sequence "@ + decimal(found as int) + " exceeds i32"@,
                ),
            )
        } else if place > i32::MAX {
            Err(corruption(entity_kind, id, "event stream exceeds i32"@))
        } else if found != place {
            Err(
                corruption(
                    entity_kind,
                    id,
                    "expected event sequence "@ + decimal(place) + ", found "@ + decimal(
                        found as int,
                    ),
                ),
            )
        } else {
            match text_at(row, 2) {
                Err(error) => Err(engine_refusal(error)),
                Ok(payload) => match text_at(row, 1) {
                    Err(error) => Err(engine_refusal(error)),
                    Ok(event_type) => match json_value(payload) {
                        Err(reason) => Err(corruption(entity_kind, id, reason)),
                        Ok(_) => match time_at(row, 3) {
                            Err(failure) => Err(failure),
                            Ok(recorded_at) => Ok(
                                EventFacts {
                                    sequence: found as i32,
                                    event_type,
                                    payload,
                                    recorded_at,
                                },
                            ),
                        },
                    },
                },
            }
        },
    }
}

/// Whether row `i` is the first that is not the event of its place.
pub open spec fn first_broken(
    rows: Seq<Row>,
    entity_kind: EntityKind,
    id: Seq<char>,
    i: int,
) -> bool {
    &&& 0 <= i < rows.len()
    &&& event_of(rows[i], entity_kind, id, i + 1) is Err
    &&& forall|k: int|
        0 <= k < i ==> event_of(#[trigger] rows[k], entity_kind, id, k + 1) is Ok
}

/// The events that rows hold, if each is the event of its place.
pub open spec fn stream_of(rows: Seq<Row>, entity_kind: EntityKind, id: Seq<char>) -> Seq<
    EventFacts,
> {
    Seq::new(rows.len(), |i: int| event_of(rows[i], entity_kind, id, i + 1)->Ok_0)
}

/// The failure of a stream whose length is not the version of the projection.
pub open spec fn wrong_length(
    entity_kind: EntityKind,
    id: Seq<char>,
    version: u32,
    length: int,
) -> RepositoryFailure {
    corruption(
        entity_kind,
        id,
        "projection version "@ + decimal(version as int) + " disagrees with "@ + decimal(length)
            + " stored events"@,
    )
}

/// What a reply says as the events of an entity with the version `version`: the
/// first failure met in their order counts, and their number must be the
/// version.
pub open spec fn events_read(
    reply: Reply,
    entity_kind: EntityKind,
    id: Seq<char>,
    version: u32,
) -> Result<Seq<EventFacts>, RepositoryFailure> {
    match reply {
        Err(error) => Err(engine_refusal(error@)),
        Ok(answer) => if exists|i: int| first_broken(answer.rows@, entity_kind, id, i) {
            let i = choose|i: int| first_broken(answer.rows@, entity_kind, id, i);
            Err(event_of(answer.rows@[i], entity_kind, id, i + 1)->Err_0)
        } else if answer.interrupted is Some {
            Err(engine_refusal(answer.interrupted->0@))
        } else if answer.rows@.len() != version {
            Err(wrong_length(entity_kind, id, version, answer.rows@.len() as int))
        } else {
            Ok(stream_of(answer.rows@, entity_kind, id))
        },
    }
}

fn read_event(row: &Row, entity_kind: EntityKind, id: &str, place: usize) -> (r: Result<
    RawEvent,
    RepositoryError,
>)
    ensures
        match r {
            Ok(event) => event_of(*row, entity_kind, id@, place as int) == Ok::<
                EventFacts,
                RepositoryFailure,
            >(event@),
            Err(error) => event_of(*row, entity_kind, id@, place as int) == Err::<
                EventFacts,
                RepositoryFailure,
            >(error@),
        },
{
    let found = match row.integer(0) {
        Err(error) => return Err(engine_error(error)),
        Ok(found) => found,
    };
    if found < i32::MIN as i64 || found > i32::MAX as i64 {
        return Err(
            corrupt(
                entity_kind,
                id,
                join3(
                    "event sequence ",
                    decimal_signed(found).as_str(),
                    " exceeds i32",
                ).as_str(),
            ),
        );
    }
    if place as u64 > i32::MAX as u64 {
        return Err(corrupt(entity_kind, id, "event stream exceeds i32"));
    }
    if found != place as i64 {
        let mut reason = join2(
            "expected event sequence ",
            decimal_unsigned(place as u64).as_str(),
        );
        reason.append(", found ");
        reason.append(decimal_signed(found).as_str());
        return Err(corrupt(entity_kind, id, reason.as_str()));
    }
    let payload = match row.text(2) {
        Err(error) => return Err(engine_error(error)),
        Ok(payload) => payload,
    };
    let event_type = match row.text(1) {
        Err(error) => return Err(engine_error(error)),
        Ok(event_type) => event_type,
    };
    if let Err(reason) = json_parse(payload.as_str()) {
        return Err(corrupt(entity_kind, id, reason.as_str()));
    }
    let recorded_at = match read_time(row, 3) {
        Err(error) => return Err(error),
        Ok(t) => t,
    };
    Ok(RawEvent { sequence: found as i32, event_type, payload, recorded_at })
}

/// Reads the events of an entity.
pub fn load_raw_events(
    reply: &Reply,
    entity_kind: EntityKind,
    id: &str,
    version: u32,
) -> (r: Result<Vec<RawEvent>, RepositoryError>)
    ensures
        match r {
            Ok(events) => events_read(*reply, entity_kind, id@, version) == Ok::<
                Seq<EventFacts>,
                RepositoryFailure,
            >(events_of(events@)),
            Err(error) => events_read(*reply, entity_kind, id@, version) == Err::<
                Seq<EventFacts>,
                RepositoryFailure,
            >(error@),
        },
{
    let answer = match reply {
        Err(error) => return Err(engine_error(error.copied())),
        Ok(answer) => answer,
    };
    let mut events: Vec<RawEvent> = Vec::new();
    let mut i: usize = 0;
    while i < answer.rows.len()
        invariant
            i <= answer.rows.len(),
            events@.len() == i,
            *reply == Reply::Ok(*answer),
            forall|k: int|
                0 <= k < i ==> event_of(#[trigger] answer.rows@[k], entity_kind, id@, k + 1)
                    == Ok::<EventFacts, RepositoryFailure>(events@[k]@),
        decreases answer.rows.len() - i,
    {
        match read_event(&answer.rows[i], entity_kind, id, i + 1) {
            Err(error) => {
                proof {
                    assert(first_broken(answer.rows@, entity_kind, id@, i as int));
                    let found = choose|j: int| first_broken(answer.rows@, entity_kind, id@, j);
                    assert(first_broken(answer.rows@, entity_kind, id@, found));
                    if found < i {
                        assert(event_of(answer.rows@[found], entity_kind, id@, found + 1) is Ok);
                    }
                    if i < found {
                        assert(event_of(answer.rows@[i as int], entity_kind, id@, i + 1) is Ok);
                    }
                }
                return Err(error);
            },
            Ok(event) => {
                events.push(event);
            },
        }
        i = i + 1;
    }
    proof {
        assert forall|j: int| !first_broken(answer.rows@, entity_kind, id@, j) by {
            if 0 <= j < answer.rows@.len() {
                assert(event_of(answer.rows@[j], entity_kind, id@, j + 1) is Ok);
            }
        }
        assert(events_of(events@) =~= stream_of(answer.rows@, entity_kind, id@)) by {
            assert forall|k: int| 0 <= k < events@.len() implies events_of(events@)[k]
                == stream_of(answer.rows@, entity_kind, id@)[k] by {
                assert(event_of(answer.rows@[k], entity_kind, id@, k + 1) == Ok::<
                    EventFacts,
                    RepositoryFailure,
                >(events@[k]@));
            }
        }
    }
    if let Some(error) = &answer.interrupted {
        return Err(engine_error(error.copied()));
    }
    if events.len() as u64 != version as u64 {
        let mut reason = join2(
            "projection version ",
            decimal_unsigned(version as u64).as_str(),
        );
        reason.append(" disagrees with ");
        reason.append(decimal_unsigned(events.len() as u64).as_str());
        reason.append(" stored events");
        return Err(corrupt(entity_kind, id, reason.as_str()));
    }
    Ok(events)
}

/// What is said of a decoded event: `decoded` is the type that its payload has,
/// or why it has none.
pub open spec fn type_verdict(
    entity_kind: EntityKind,
    id: Seq<char>,
    event: EventFacts,
    decoded: Result<String, String>,
) -> Result<(), RepositoryFailure> {
    match decoded {
        Err(reason) => Err(corruption(entity_kind, id, reason@)),
        Ok(event_type) => if event_type@ == event.event_type {
            Ok(())
        } else {
            Err(
                corruption(
                    entity_kind,
                    id,
                    "event "@ + decimal(event.sequence as int) + " type column "@ + debug_form(
                        event.event_type,
                    ) + " disagrees with payload "@ + debug_form(event_type@),
                ),
            )
        },
    }
}

/// Requires that the payload of an event has the type that its row says.
pub fn require_event_type(
    entity_kind: EntityKind,
    id: &str,
    event: &RawEvent,
    decoded: Result<String, String>,
) -> (r: Result<(), RepositoryError>)
    ensures
        match r {
            Ok(_) => type_verdict(entity_kind, id@, event@, decoded) is Ok,
            Err(error) => type_verdict(entity_kind, id@, event@, decoded) == Err::<
                (),
                RepositoryFailure,
            >(error@),
        },
{
    match decoded {
        Err(reason) => Err(corrupt(entity_kind, id, reason.as_str())),
        Ok(event_type) => {
            if same_text(event_type.as_str(), event.event_type.as_str()) {
                return Ok(());
            }
            let mut reason = join2("event ", decimal_signed(event.sequence as i64).as_str());
            reason.append(" type column ");
            reason.append(debug_text(event.event_type.as_str()).as_str());
            reason.append(" disagrees with payload ");
            reason.append(debug_text(event_type.as_str()).as_str());
            Err(corrupt(entity_kind, id, reason.as_str()))
        },
    }
}

} // verus!
