//! The statements of which writes are made.
use crate::journal_account::codec::{encode_event_id, event_id};
use crate::journal_account::error::{
    corrupt, corruption, kind_name, EntityKind, RepositoryError, RepositoryFailure,
};
use crate::journal_account::expect::{Expectation, RepositoryCheck};
use crate::journal_account::record::texts_of;
use crate::storage::engine::{
    execute, int_param, params_of, query_first, text_param, Asked, Param, RowsWanted,
};
use crate::storage::scope::Step;
use std::collections::VecDeque;
use vstd::prelude::*;
use vstd::string::*;

verus! {

/// Reads the version of a journal.
pub const JOURNAL_VERSION: &'static str = "SELECT version FROM cala_journals WHERE id = ?1";

/// Reads the version of an account.
pub const ACCOUNT_VERSION: &'static str = "SELECT version FROM cala_accounts WHERE id = ?1";

/// Finds another journal with the same code.
pub const JOURNAL_CODE_TAKEN: &'static str = "SELECT id FROM cala_journals \
    WHERE id <> ?1 AND json_extract(payload, '$.code') = ?2 LIMIT 1";

/// Finds another account with the same external identifier.
pub const ACCOUNT_EXTERNAL_ID_TAKEN: &'static str = "SELECT id FROM cala_accounts \
    WHERE id <> ?1 AND json_extract(payload, '$.external_id') = ?2 LIMIT 1";

/// Finds another account with the same code.
pub const ACCOUNT_CODE_TAKEN: &'static str =
    "SELECT id FROM cala_accounts WHERE id <> ?1 AND code = ?2 LIMIT 1";

/// Appends an event to the stream of an entity.
pub const APPEND_EVENT: &'static str = "INSERT INTO cala_entity_events \
    (event_id, entity_kind, entity_id, entity_sequence, event_type, event_payload, recorded_at) \
    VALUES (?1, ?2, ?3, ?4, ?5, ?6, ?7)";

/// Whether `step` asks `asked` and checks the reply as `expectation` says.
pub open spec fn expects(
    step: Step<RepositoryCheck>,
    asked: Asked,
    expectation: Expectation,
) -> bool {
    step matches Step::Run { statement, check } && statement@ == asked && check@ == expectation
}

/// Whether `step` refuses with `failure`.
pub open spec fn refuses(step: Step<RepositoryCheck>, failure: RepositoryFailure) -> bool {
    step matches Step::Refuse(error) && error@ == failure
}

/// Whether `step` checks the stored version of an entity.
pub open spec fn checks_version(
    step: Step<RepositoryCheck>,
    entity_kind: EntityKind,
    id: Seq<char>,
    expected: u32,
) -> bool {
    expects(
        step,
        Asked::Query(
            match entity_kind {
                EntityKind::Journal => JOURNAL_VERSION@,
                EntityKind::Account => ACCOUNT_VERSION@,
            },
            seq![Param::Text(id)],
            RowsWanted::First,
        ),
        Expectation::StoredVersion { entity_kind, id, expected },
    )
}

/// Whether `step` checks that no other entity bears an identity.
pub open spec fn checks_identity(
    step: Step<RepositoryCheck>,
    sql: Seq<char>,
    entity_kind: EntityKind,
    id: Seq<char>,
    field: Seq<char>,
    value: Seq<char>,
) -> bool {
    expects(
        step,
        Asked::Query(sql, seq![Param::Text(id), Param::Text(value)], RowsWanted::First),
        Expectation::IdentityAvailable { entity_kind, field, value },
    )
}

/// Whether `step` appends one event.
pub open spec fn appends_event(
    step: Step<RepositoryCheck>,
    entity_kind: EntityKind,
    id: Seq<char>,
    sequence: int,
    event_type: Seq<char>,
    payload: Seq<char>,
    recorded_at: Seq<char>,
) -> bool {
    expects(
        step,
        Asked::Execute(
            APPEND_EVENT@,
            seq![
                Param::Text(event_id(entity_kind, id, sequence)),
                Param::Text(kind_name(entity_kind)),
                Param::Text(id),
                Param::Integer(sequence as i64),
                Param::Text(event_type),
                Param::Text(payload),
                Param::Text(recorded_at),
            ],
        ),
        Expectation::EventAppended { entity_kind, id, sequence: sequence as u32 },
    )
}

/// How many of `count` events get a place after `offset` stored ones.
pub open spec fn places(offset: u32, count: nat) -> int {
    if count <= u32::MAX - offset {
        count as int
    } else {
        u32::MAX - offset
    }
}

/// Whether `steps` append the events in their order, right after the `offset`
/// stored ones.
pub open spec fn appends_events(
    steps: Seq<Step<RepositoryCheck>>,
    entity_kind: EntityKind,
    id: Seq<char>,
    offset: u32,
    event_types: Seq<Seq<char>>,
    payloads: Seq<Seq<char>>,
    recorded_at: Seq<char>,
) -> bool {
    if event_types.len() != payloads.len() {
        &&& steps.len() == 1
        &&& refuses(steps[0], corruption(entity_kind, id, "event type/payload counts differ"@))
    } else {
        let n = places(offset, payloads.len());
        &&& steps.len() == if n == payloads.len() {
            n
        } else {
            n + 1
        }
        &&& forall|i: int|
            0 <= i < n ==> appends_event(
                #[trigger] steps[i],
                entity_kind,
                id,
                offset + i + 1,
                event_types[i],
                payloads[i],
                recorded_at,
            )
        &&& n < payloads.len() ==> refuses(
            steps[n],
            RepositoryFailure::Codec("event sequence overflow"@),
        )
    }
}

/// A step that checks the stored version of an entity.
pub fn version_step(entity_kind: EntityKind, id: &str, expected: u32) -> (r: Step<RepositoryCheck>)
    ensures
        checks_version(r, entity_kind, id@, expected),
{
    let params = vec![text_param(id)];
    proof {
        assert(params_of(params@) =~= seq![Param::Text(id@)]);
    }
    let sql: &'static str = match entity_kind {
        EntityKind::Journal => JOURNAL_VERSION,
        EntityKind::Account => ACCOUNT_VERSION,
    };
    Step::Run {
        statement: query_first(sql, params),
        check: RepositoryCheck::StoredVersion { entity_kind, id: id.to_owned(), expected },
    }
}

/// A step that checks that no other entity bears an identity.
pub fn identity_step(
    sql: &'static str,
    entity_kind: EntityKind,
    id: &str,
    field: &'static str,
    value: &str,
) -> (r: Step<RepositoryCheck>)
    ensures
        checks_identity(r, sql@, entity_kind, id@, field@, value@),
{
    let params = vec![text_param(id), text_param(value)];
    proof {
        assert(params_of(params@) =~= seq![Param::Text(id@), Param::Text(value@)]);
    }
    Step::Run {
        statement: query_first(sql, params),
        check: RepositoryCheck::IdentityAvailable { entity_kind, field, value: value.to_owned() },
    }
}

fn append_step(
    entity_kind: EntityKind,
    id: &str,
    sequence: u32,
    event_type: &str,
    payload: &str,
    recorded_at: &str,
) -> (r: Step<RepositoryCheck>)
    ensures
        appends_event(
            r,
            entity_kind,
            id@,
            sequence as int,
            event_type@,
            payload@,
            recorded_at@,
        ),
{
    let params = vec![
        text_param(encode_event_id(entity_kind, id, sequence).as_str()),
        text_param(entity_kind.name()),
        text_param(id),
        int_param(sequence as i64),
        text_param(event_type),
        text_param(payload),
        text_param(recorded_at),
    ];
    proof {
        assert(params_of(params@) =~= seq![
            Param::Text(event_id(entity_kind, id@, sequence as int)),
            Param::Text(kind_name(entity_kind)),
            Param::Text(id@),
            Param::Integer(sequence as i64),
            Param::Text(event_type@),
            Param::Text(payload@),
            Param::Text(recorded_at@),
        ]);
    }
    Step::Run {
        statement: execute(APPEND_EVENT, params),
        check: RepositoryCheck::EventAppended { entity_kind, id: id.to_owned(), sequence },
    }
}

/// Appends the steps that append events.
pub fn insert_events(
    steps: VecDeque<Step<RepositoryCheck>>,
    entity_kind: EntityKind,
    id: &str,
    offset: u32,
    event_types: &Vec<String>,
    payloads: &Vec<String>,
    recorded_at: &str,
) -> (r: VecDeque<Step<RepositoryCheck>>)
    ensures
        r@.len() >= steps@.len(),
        r@.take(steps@.len() as int) == steps@,
        appends_events(
            r@.skip(steps@.len() as int),
            entity_kind,
            id@,
            offset,
            texts_of(event_types@),
            texts_of(payloads@),
            recorded_at@,
        ),
{
    let ghost before = steps@;
    let mut steps = steps;
    if event_types.len() != payloads.len() {
        steps.push_back(
            Step::Refuse(corrupt(entity_kind, id, "event type/payload counts differ")),
        );
        proof {
            assert(steps@.take(before.len() as int) =~= before);
        }
        return steps;
    }
    let room: u64 = (u32::MAX - offset) as u64;
    let mut index: usize = 0;
    while index < payloads.len() && (index as u64) < room
        invariant
            index <= payloads.len(),
            index <= room,
            room == u32::MAX - offset,
            event_types.len() == payloads.len(),
            steps@.len() == before.len() + index,
            steps@.take(before.len() as int) == before,
            forall|i: int|
                0 <= i < index ==> appends_event(
                    #[trigger] steps@[before.len() + i],
                    entity_kind,
                    id@,
                    offset + i + 1,
                    event_types@[i]@,
                    payloads@[i]@,
                    recorded_at@,
                ),
        decreases payloads.len() - index,
    {
        let ghost earlier = steps@;
        let sequence: u32 = offset + (index as u32) + 1;
        let step = append_step(
            entity_kind,
            id,
            sequence,
            event_types[index].as_str(),
            payloads[index].as_str(),
            recorded_at,
        );
        steps.push_back(step);
        proof {
            assert(steps@.take(before.len() as int) =~= before);
            assert forall|i: int| 0 <= i < index + 1 implies appends_event(
                #[trigger] steps@[before.len() + i],
                entity_kind,
                id@,
                offset + i + 1,
                event_types@[i]@,
                payloads@[i]@,
                recorded_at@,
            ) by {
                if i < index {
                    assert(steps@[before.len() + i] == earlier[before.len() + i]);
                }
            }
        }
        index = index + 1;
    }
    let ghost earlier = steps@;
    if index < payloads.len() {
        steps.push_back(
            Step::Refuse(RepositoryError::Codec("event sequence overflow".to_owned())),
        );
    }
    proof {
        assert(steps@.take(before.len() as int) =~= before);
        let tail = steps@.skip(before.len() as int);
        let n = places(offset, payloads@.len());
        assert(n == index);
        assert forall|i: int| 0 <= i < n implies appends_event(
            #[trigger] tail[i],
            entity_kind,
            id@,
            offset + i + 1,
            texts_of(event_types@)[i],
            texts_of(payloads@)[i],
            recorded_at@,
        ) by {
            assert(tail[i] == earlier[before.len() + i]);
        }
    }
    steps
}

} // verus!
