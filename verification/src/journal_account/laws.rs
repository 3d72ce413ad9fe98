//! What holds of everything the repository writes and reads.
use crate::identity::hyphenated;
use crate::journal_account::codec::{event_id, status_text, time_read};
use crate::journal_account::entity::{
    account_agreement, journal_agreement, same_values, Entity, Folded,
};
use crate::journal_account::error::{kind_name, EntityKind, RepositoryError, RepositoryFailure};
use crate::journal_account::expect::{repository_verdict, stored_version, RepositoryCheck};
use crate::journal_account::load::{
    decoding, found_id, load_need, load_next, LoadNeed, LoadState, Sought, Told,
};
use crate::journal_account::persist::{
    account_outcome, change_outcome, leaves_unchanged, updates_account, updates_journal, Change,
};
use crate::journal_account::record::{
    AccountFacts, AccountRecord, Changed, Draft, Encoded, FirstEvent, JournalFacts, JournalRecord,
};
use crate::journal_account::statements::{
    appends_event, appends_events, checks_version, places, APPEND_EVENT,
};
use crate::journal_account::stored::{
    event_of, events_read, first_broken, projection_of, projection_read, stream_of, EventFacts,
    ProjectionFacts,
};
use crate::journal_account::write::{
    account_draft_fault, creates_account, creates_journal, INSERT_ACCOUNT, INSERT_JOURNAL,
    UPDATE_ACCOUNT, UPDATE_JOURNAL,
};
use crate::json::json_value;
use crate::storage::engine::{
    integer_at, optional_text_at, text_at, Asked, EngineFailure, Param, Reply, Row,
    TransactionBehavior,
};
use crate::storage::laws::{
    accepts, asked, is_history, law_committed_ran_every_step, law_refused_reply_is_the_last,
    law_rollback_is_final, law_statements_are_steps, takes, History,
};
use crate::storage::scope::{follows, Check, End, Ending, Phase, Request, Step};
use crate::text::{digits, lemma_digits_differ};
use vstd::prelude::*;

verus! {

/// Events are read only as a stream without gaps: their sequence numbers are 1,
/// 2, 3 and so on up to the version of the projection.
pub proof fn law_streams_have_no_gaps(
    reply: Reply,
    entity_kind: EntityKind,
    id: Seq<char>,
    version: u32,
    events: Seq<EventFacts>,
)
    requires
        events_read(reply, entity_kind, id, version) == Ok::<Seq<EventFacts>, RepositoryFailure>(
            events,
        ),
    ensures
        events.len() == version,
        forall|i: int| 0 <= i < events.len() ==> (#[trigger] events[i]).sequence == i + 1,
{
    let answer = reply->Ok_0;
    assert forall|i: int| 0 <= i < events.len() implies (#[trigger] events[i]).sequence == i
        + 1 by {
        lemma_unbroken(answer.rows@, entity_kind, id, i);
    }
}

proof fn lemma_unbroken(rows: Seq<Row>, entity_kind: EntityKind, id: Seq<char>, i: int)
    requires
        0 <= i < rows.len(),
        !exists|j: int| first_broken(rows, entity_kind, id, j),
    ensures
        event_of(rows[i], entity_kind, id, i + 1) is Ok,
    decreases i,
{
    assert forall|k: int| 0 <= k < i implies event_of(
        #[trigger] rows[k],
        entity_kind,
        id,
        k + 1,
    ) is Ok by {
        lemma_unbroken(rows, entity_kind, id, k);
    }
    assert(!first_broken(rows, entity_kind, id, i));
}

/// Whether `row` is what the question for events finds of an event that `step`
/// appended.
pub open spec fn keeps_event(step: Step<RepositoryCheck>, row: Row) -> bool {
    &&& step matches Step::Run { statement, .. }
    &&& statement@ matches Asked::Execute(sql, params)
    &&& sql == APPEND_EVENT@
    &&& params.len() == 7
    &&& params[3] matches Param::Integer(sequence)
    &&& integer_at(row, 0) == Ok::<i64, EngineFailure>(sequence)
    &&& holds_text(row, 1, params[4])
    &&& holds_text(row, 2, params[5])
    &&& holds_text(row, 3, params[6])
}

/// Whether column `i` of `row` holds the text of a parameter.
pub open spec fn holds_text(row: Row, i: int, param: Param) -> bool {
    param matches Param::Text(text) && text_at(row, i) == Ok::<Seq<char>, EngineFailure>(text)
}

proof fn lemma_kept_event(
    step: Step<RepositoryCheck>,
    row: Row,
    entity_kind: EntityKind,
    id: Seq<char>,
    sequence: int,
    event_type: Seq<char>,
    payload: Seq<char>,
    recorded_at: Seq<char>,
    at: (i64, u32),
)
    requires
        appends_event(step, entity_kind, id, sequence, event_type, payload, recorded_at),
        keeps_event(step, row),
        1 <= sequence <= i32::MAX,
        json_value(payload) is Ok,
        time_read(recorded_at) == Ok::<(i64, u32), RepositoryFailure>(at),
    ensures
        event_of(row, entity_kind, id, sequence) == Ok::<EventFacts, RepositoryFailure>(
            EventFacts { sequence: sequence as i32, event_type, payload, recorded_at: at },
        ),
{
    let params = seq![
        Param::Text(event_id(entity_kind, id, sequence)),
        Param::Text(kind_name(entity_kind)),
        Param::Text(id),
        Param::Integer(sequence as i64),
        Param::Text(event_type),
        Param::Text(payload),
        Param::Text(recorded_at),
    ];
    assert(params[3] == Param::Integer(sequence as i64));
    assert(params[4] == Param::Text(event_type));
    assert(params[5] == Param::Text(payload));
    assert(params[6] == Param::Text(recorded_at));
}

/// Events that are appended after `offset` stored ones continue the stream: if
/// the stored rows were a stream of that length, then with the rows of the
/// appended events they are one of the new length, and what was stored before
/// is unchanged at its front.
pub proof fn law_appended_events_continue_the_stream(
    stored: Seq<Row>,
    steps: Seq<Step<RepositoryCheck>>,
    added: Seq<Row>,
    entity_kind: EntityKind,
    id: Seq<char>,
    offset: u32,
    event_types: Seq<Seq<char>>,
    payloads: Seq<Seq<char>>,
    recorded_at: Seq<char>,
    at: (i64, u32),
    reply: Reply,
)
    requires
        stored.len() == offset,
        forall|i: int|
            0 <= i < stored.len() ==> event_of(#[trigger] stored[i], entity_kind, id, i + 1) is Ok,
        appends_events(steps, entity_kind, id, offset, event_types, payloads, recorded_at),
        event_types.len() == payloads.len(),
        offset + payloads.len() <= i32::MAX,
        added.len() == payloads.len(),
        forall|i: int| 0 <= i < added.len() ==> keeps_event(#[trigger] steps[i], added[i]),
        forall|i: int| 0 <= i < payloads.len() ==> json_value(#[trigger] payloads[i]) is Ok,
        time_read(recorded_at) == Ok::<(i64, u32), RepositoryFailure>(at),
        reply matches Ok(answer) && answer.rows@ == stored + added && answer.interrupted is None,
    ensures
        events_read(reply, entity_kind, id, (offset + payloads.len()) as u32) matches Ok(events)
            && events.take(offset as int) == stream_of(stored, entity_kind, id) && forall|i: int|
            0 <= i < payloads.len() ==> #[trigger] events[offset + i] == (EventFacts {
                sequence: (offset + i + 1) as i32,
                event_type: event_types[i],
                payload: payloads[i],
                recorded_at: at,
            }),
{
    let rows = stored + added;
    let events = stream_of(rows, entity_kind, id);
    assert forall|i: int| 0 <= i < rows.len() implies event_of(
        #[trigger] rows[i],
        entity_kind,
        id,
        i + 1,
    ) is Ok by {
        if i < offset {
            assert(rows[i] == stored[i]);
        } else {
            let k = i - offset;
            assert(rows[i] == added[k]);
            assert(keeps_event(steps[k], added[k]));
            assert(appends_event(
                steps[k],
                entity_kind,
                id,
                offset + k + 1,
                event_types[k],
                payloads[k],
                recorded_at,
            ));
            lemma_kept_event(
                steps[k],
                added[k],
                entity_kind,
                id,
                offset + k + 1,
                event_types[k],
                payloads[k],
                recorded_at,
                at,
            );
        }
    }
    assert forall|j: int| !first_broken(rows, entity_kind, id, j) by {
        if 0 <= j < rows.len() {
            assert(event_of(rows[j], entity_kind, id, j + 1) is Ok);
        }
    }
    assert(events.take(offset as int) =~= stream_of(stored, entity_kind, id)) by {
        assert forall|i: int| 0 <= i < offset implies #[trigger] events[i] == stream_of(
            stored,
            entity_kind,
            id,
        )[i] by {
            assert(rows[i] == stored[i]);
        }
    }
    assert forall|i: int| 0 <= i < payloads.len() implies #[trigger] events[offset + i] == (
    EventFacts {
        sequence: (offset + i + 1) as i32,
        event_type: event_types[i],
        payload: payloads[i],
        recorded_at: at,
    }) by {
        assert(rows[offset + i] == added[i]);
        assert(keeps_event(steps[i], added[i]));
        assert(appends_event(
            steps[i],
            entity_kind,
            id,
            offset + i + 1,
            event_types[i],
            payloads[i],
            recorded_at,
        ));
        lemma_kept_event(
            steps[i],
            added[i],
            entity_kind,
            id,
            offset + i + 1,
            event_types[i],
            payloads[i],
            recorded_at,
            at,
        );
    }
}

/// Whether `row` is what the question for a projection finds of a journal that
/// `step` inserted.
pub open spec fn keeps_journal(step: Step<RepositoryCheck>, row: Row) -> bool {
    &&& step matches Step::Run { statement, .. }
    &&& statement@ matches Asked::Execute(sql, params)
    &&& sql == INSERT_JOURNAL@
    &&& params.len() == 5
    &&& integer_at(row, 0) == Ok::<i64, EngineFailure>(1)
    &&& holds_text(row, 1, params[1])
    &&& optional_text_at(row, 2) == Ok::<Option<Seq<char>>, EngineFailure>(None)
    &&& holds_text(row, 3, params[2])
    &&& holds_text(row, 4, params[3])
    &&& holds_text(row, 5, params[4])
    &&& holds_text(row, 6, params[4])
}

/// Whether `row` is what the question for a projection finds of an account that
/// `step` inserted.
pub open spec fn keeps_account(step: Step<RepositoryCheck>, row: Row) -> bool {
    &&& step matches Step::Run { statement, .. }
    &&& statement@ matches Asked::Execute(sql, params)
    &&& sql == INSERT_ACCOUNT@
    &&& params.len() == 6
    &&& integer_at(row, 0) == Ok::<i64, EngineFailure>(1)
    &&& holds_text(row, 1, params[2])
    &&& params[1] matches Param::Text(code)
    &&& optional_text_at(row, 2) == Ok::<Option<Seq<char>>, EngineFailure>(Some(code))
    &&& holds_text(row, 3, params[3])
    &&& holds_text(row, 4, params[4])
    &&& holds_text(row, 5, params[5])
    &&& holds_text(row, 6, params[5])
}

/// Whether `reply` gives exactly `row`.
pub open spec fn gives(reply: Reply, row: Row) -> bool {
    reply matches Ok(answer) && answer.rows@ == seq![row] && answer.interrupted is None
}

/// Where a load by identifier is once its transaction began and it was told a
/// projection and the events.
pub open spec fn told_rows<R: Entity>(
    id: u128,
    begun: Reply,
    projection: Reply,
    events: Reply,
) -> LoadState {
    load_next(
        load_next(
            load_next(LoadState::Opening(Sought::Id(id)), Told::<R>::Replied(begun)),
            Told::<R>::Replied(projection),
        ),
        Told::<R>::Replied(events),
    )
}

/// Where a load that waits for a fold ends when it is told one and its
/// transaction closes.
pub open spec fn told_fold<R: Entity>(
    state: LoadState,
    folded: Folded<R>,
    ended: Reply,
) -> LoadState {
    load_next(
        load_next(state, Told::Folded(Ok(Some(folded)))),
        Told::<R>::Replied(ended),
    )
}

/// The projection of a journal as it was created.
pub open spec fn created_journal(
    facts: JournalFacts,
    payload: Seq<char>,
    at: (i64, u32),
) -> ProjectionFacts {
    ProjectionFacts {
        version: 1,
        name: facts.name,
        code: None,
        status: status_text(facts.status),
        payload,
        created_at: at,
        modified_at: at,
    }
}

/// The projection of an account as it was created.
pub open spec fn created_account(
    facts: AccountFacts,
    payload: Seq<char>,
    at: (i64, u32),
) -> ProjectionFacts {
    ProjectionFacts {
        version: 1,
        name: facts.name,
        code: Some(facts.code),
        status: status_text(facts.status),
        payload,
        created_at: at,
        modified_at: at,
    }
}

/// A journal that was created is found by its identifier. If the engine gives back
/// the rows that the steps of the creation stored, then the load reads version
/// 1, created and modified at the instant of the creation, and one event, the
/// first, recorded at that instant. If the event decodes to its type and folds
/// to the journal as it was created, then the load ends well.
pub proof fn law_created_journal_is_read_back(
    steps: Seq<Step<RepositoryCheck>>,
    facts: JournalFacts,
    payload: Seq<char>,
    event_type: Seq<char>,
    event_payload: Seq<char>,
    timestamp: Seq<char>,
    at: (i64, u32),
    projection_row: Row,
    event_row: Row,
    projection_reply: Reply,
    events_reply: Reply,
    decoded: String,
    folded: Folded<JournalRecord>,
    begun: Reply,
    ended: Reply,
)
    requires
        creates_journal(
            steps,
            facts,
            payload,
            seq![event_type],
            seq![event_payload],
            timestamp,
        ),
        time_read(timestamp) == Ok::<(i64, u32), RepositoryFailure>(at),
        json_value(event_payload) is Ok,
        begun is Ok,
        ended is Ok,
        gives(projection_reply, projection_row),
        gives(events_reply, event_row),
        keeps_journal(steps[steps.len() - 2], projection_row),
        keeps_event(steps[steps.len() - 1], event_row),
        decoded@ == event_type,
        folded.record@ == facts,
        folded.created_at.at() == at,
        folded.modified_at.at() == at,
        same_values(payload, folded.values) == Ok::<bool, RepositoryFailure>(true),
    ensures
        load_next(
            told_rows::<JournalRecord>(facts.id.0, begun, projection_reply, events_reply),
            Told::<JournalRecord>::Decoded(Ok(decoded)),
        ) == LoadState::Folding(
            facts.id.0,
            created_journal(facts, payload, at),
            seq![
                EventFacts { sequence: 1, event_type, payload: event_payload, recorded_at: at },
            ],
        ),
        told_fold(
            load_next(
                told_rows::<JournalRecord>(facts.id.0, begun, projection_reply, events_reply),
                Told::<JournalRecord>::Decoded(Ok(decoded)),
            ),
            folded,
            ended,
        ) == LoadState::Closed(Ok(())),
{
    let id = hyphenated(facts.id.0);
    let k: int = if facts.code is Some {
        1
    } else {
        0
    };
    let tail = steps.skip(k + 1);
    assert(places(0, seq![event_payload].len()) == 1);
    assert(tail.len() == 1);
    assert(tail[0] == steps[k + 1]);
    assert(appends_event(
        tail[0],
        EntityKind::Journal,
        id,
        1,
        seq![event_type][0],
        seq![event_payload][0],
        timestamp,
    ));
    assert(steps.len() == k + 2);
    let params = seq![
        Param::Text(id),
        Param::Text(facts.name),
        Param::Text(status_text(facts.status)),
        Param::Text(payload),
        Param::Text(timestamp),
    ];
    assert(params[1] == Param::Text(facts.name));
    assert(params[2] == Param::Text(status_text(facts.status)));
    assert(params[3] == Param::Text(payload));
    assert(params[4] == Param::Text(timestamp));
    let projection = created_journal(facts, payload, at);
    assert(projection_of(projection_row, EntityKind::Journal, id) == Ok::<
        ProjectionFacts,
        RepositoryFailure,
    >(projection));
    assert(seq![projection_row][0] == projection_row);
    lemma_kept_event(
        steps[k + 1],
        event_row,
        EntityKind::Journal,
        id,
        1,
        event_type,
        event_payload,
        timestamp,
        at,
    );
    lemma_single_event(events_reply, event_row, EntityKind::Journal, id);
    let events = stream_of(seq![event_row], EntityKind::Journal, id);
    assert(events.len() == 1);
    assert(events[0].event_type == event_type);
    assert(events =~= seq![
        EventFacts { sequence: 1, event_type, payload: event_payload, recorded_at: at },
    ]);
    let streaming = load_next(
        LoadState::Projecting(facts.id.0),
        Told::<JournalRecord>::Replied(projection_reply),
    );
    assert(streaming == LoadState::Streaming(facts.id.0, projection));
    let waiting = told_rows::<JournalRecord>(facts.id.0, begun, projection_reply, events_reply);
    assert(waiting == LoadState::Decoding(facts.id.0, projection, events, 0));
    assert(journal_agreement(folded, projection) is Ok);
}

proof fn lemma_single_event(reply: Reply, row: Row, entity_kind: EntityKind, id: Seq<char>)
    requires
        gives(reply, row),
        event_of(row, entity_kind, id, 1) is Ok,
    ensures
        events_read(reply, entity_kind, id, 1) == Ok::<Seq<EventFacts>, RepositoryFailure>(
            stream_of(seq![row], entity_kind, id),
        ),
{
    let rows = seq![row];
    assert forall|j: int| !first_broken(rows, entity_kind, id, j) by {
        if 0 <= j < rows.len() {
            assert(rows[j] == row);
        }
    }
}

/// An account that was created is found by its identifier. If the engine gives back
/// the rows that the steps of the creation stored, then the load reads version
/// 1, created and modified at the instant of the creation, and one event, the
/// first, recorded at that instant. If the event decodes to its type and folds
/// to the account as it was created, then the load ends well.
pub proof fn law_created_account_is_read_back(
    steps: Seq<Step<RepositoryCheck>>,
    facts: AccountFacts,
    payload: Seq<char>,
    event_type: Seq<char>,
    event_payload: Seq<char>,
    timestamp: Seq<char>,
    at: (i64, u32),
    projection_row: Row,
    event_row: Row,
    projection_reply: Reply,
    events_reply: Reply,
    decoded: String,
    folded: Folded<AccountRecord>,
    begun: Reply,
    ended: Reply,
)
    requires
        creates_account(
            steps,
            facts,
            payload,
            seq![event_type],
            seq![event_payload],
            timestamp,
        ),
        !facts.is_account_set,
        time_read(timestamp) == Ok::<(i64, u32), RepositoryFailure>(at),
        json_value(event_payload) is Ok,
        begun is Ok,
        ended is Ok,
        gives(projection_reply, projection_row),
        gives(events_reply, event_row),
        keeps_account(steps[steps.len() - 2], projection_row),
        keeps_event(steps[steps.len() - 1], event_row),
        decoded@ == event_type,
        folded.record@ == facts,
        folded.created_at.at() == at,
        folded.modified_at.at() == at,
        same_values(payload, folded.values) == Ok::<bool, RepositoryFailure>(true),
    ensures
        load_next(
            told_rows::<AccountRecord>(facts.id.0, begun, projection_reply, events_reply),
            Told::<AccountRecord>::Decoded(Ok(decoded)),
        ) == LoadState::Folding(
            facts.id.0,
            created_account(facts, payload, at),
            seq![
                EventFacts { sequence: 1, event_type, payload: event_payload, recorded_at: at },
            ],
        ),
        told_fold(
            load_next(
                told_rows::<AccountRecord>(facts.id.0, begun, projection_reply, events_reply),
                Told::<AccountRecord>::Decoded(Ok(decoded)),
            ),
            folded,
            ended,
        ) == LoadState::Closed(Ok(())),
{
    let id = hyphenated(facts.id.0);
    let k: int = if facts.external_id is Some {
        2
    } else {
        1
    };
    let tail = steps.skip(k + 1);
    assert(places(0, seq![event_payload].len()) == 1);
    assert(tail.len() == 1);
    assert(tail[0] == steps[k + 1]);
    assert(appends_event(
        tail[0],
        EntityKind::Account,
        id,
        1,
        seq![event_type][0],
        seq![event_payload][0],
        timestamp,
    ));
    assert(steps.len() == k + 2);
    let params = seq![
        Param::Text(id),
        Param::Text(facts.code),
        Param::Text(facts.name),
        Param::Text(status_text(facts.status)),
        Param::Text(payload),
        Param::Text(timestamp),
    ];
    assert(params[1] == Param::Text(facts.code));
    assert(params[2] == Param::Text(facts.name));
    assert(params[3] == Param::Text(status_text(facts.status)));
    assert(params[4] == Param::Text(payload));
    assert(params[5] == Param::Text(timestamp));
    let projection = created_account(facts, payload, at);
    assert(projection_of(projection_row, EntityKind::Account, id) == Ok::<
        ProjectionFacts,
        RepositoryFailure,
    >(projection));
    assert(seq![projection_row][0] == projection_row);
    lemma_kept_event(
        steps[k + 1],
        event_row,
        EntityKind::Account,
        id,
        1,
        event_type,
        event_payload,
        timestamp,
        at,
    );
    lemma_single_event(events_reply, event_row, EntityKind::Account, id);
    let events = stream_of(seq![event_row], EntityKind::Account, id);
    assert(events.len() == 1);
    assert(events[0].event_type == event_type);
    assert(events =~= seq![
        EventFacts { sequence: 1, event_type, payload: event_payload, recorded_at: at },
    ]);
    let streaming = load_next(
        LoadState::Projecting(facts.id.0),
        Told::<AccountRecord>::Replied(projection_reply),
    );
    assert(streaming == LoadState::Streaming(facts.id.0, projection));
    let waiting = told_rows::<AccountRecord>(facts.id.0, begun, projection_reply, events_reply);
    assert(waiting == LoadState::Decoding(facts.id.0, projection, events, 0));
    assert(account_agreement(folded, projection) is Ok);
}

/// Where a load is once it was told the types that the next events decode to.
pub open spec fn told_types<R: Entity>(state: LoadState, types: Seq<String>) -> LoadState
    decreases types.len(),
{
    if types.len() == 0 {
        state
    } else {
        told_types::<R>(
            load_next(state, Told::<R>::Decoded(Ok(types[0]))),
            types.drop_first(),
        )
    }
}

/// Whether each type is that of the event in the same place.
pub open spec fn are_types_of(types: Seq<String>, events: Seq<EventFacts>) -> bool {
    &&& types.len() == events.len()
    &&& forall|i: int| 0 <= i < types.len() ==> (#[trigger] types[i])@ == events[i].event_type
}

proof fn lemma_types_lead_to_fold<R: Entity>(
    id: u128,
    projection: ProjectionFacts,
    events: Seq<EventFacts>,
    types: Seq<String>,
    n: int,
)
    requires
        are_types_of(types, events),
        0 <= n <= types.len(),
    ensures
        told_types::<R>(decoding(id, projection, events, n), types.skip(n))
            == LoadState::Folding(id, projection, events),
    decreases types.len() - n,
{
    let rest = types.skip(n);
    if n < types.len() {
        assert(rest[0] == types[n]);
        assert(rest.drop_first() =~= types.skip(n + 1));
        lemma_types_lead_to_fold::<R>(id, projection, events, types, n + 1);
    }
}

/// An entity whose projection, events and fold agree is accepted, however many
/// events it has.
pub proof fn law_agreeing_entity_is_accepted<R: Entity>(
    id: u128,
    projection_reply: Reply,
    events_reply: Reply,
    projection: ProjectionFacts,
    events: Seq<EventFacts>,
    types: Seq<String>,
    folded: Folded<R>,
    begun: Reply,
    ended: Reply,
)
    requires
        begun is Ok,
        ended is Ok,
        projection_read(projection_reply, R::kind(), hyphenated(id)) == Ok::<
            ProjectionFacts,
            RepositoryFailure,
        >(projection),
        events_read(events_reply, R::kind(), hyphenated(id), projection.version) == Ok::<
            Seq<EventFacts>,
            RepositoryFailure,
        >(events),
        are_types_of(types, events),
        R::agreement(folded, projection) == Ok::<(), RepositoryFailure>(()),
    ensures
        accepted_load::<R>(id, begun, projection_reply, events_reply, types, folded, ended),
{
    lemma_types_lead_to_fold::<R>(id, projection, events, types, 0);
    assert(types.skip(0) =~= types);
}

/// Whether a load by identifier that begins, is told a projection, the events,
/// their types and their fold, and closes, ends well.
pub open spec fn accepted_load<R: Entity>(
    id: u128,
    begun: Reply,
    projection_reply: Reply,
    events_reply: Reply,
    types: Seq<String>,
    folded: Folded<R>,
    ended: Reply,
) -> bool {
    told_fold(
        told_types::<R>(told_rows::<R>(id, begun, projection_reply, events_reply), types),
        folded,
        ended,
    ) == LoadState::Closed(Ok(()))
}

/// A load by another identity goes on as one by the identifier that is found
/// for it.
pub proof fn law_identity_leads_to_identifier<R: Entity>(
    sql: Seq<char>,
    field: Seq<char>,
    value: Seq<char>,
    id: u128,
    begun: Reply,
    found: Reply,
)
    requires
        begun is Ok,
        found_id(found, R::kind(), field, value) == Ok::<u128, RepositoryFailure>(id),
    ensures
        load_next(
            load_next(
                LoadState::Opening(Sought::Identity { sql, field, value }),
                Told::<R>::Replied(begun),
            ),
            Told::<R>::Replied(found),
        ) == load_next(LoadState::Opening(Sought::Id(id)), Told::<R>::Replied(begun)),
{
}

/// An entity is accepted only if its events fold to one that agrees with its
/// projection: everything else fails closed.
pub proof fn law_disagreement_fails_closed<R: Entity>(
    id: u128,
    projection: ProjectionFacts,
    events: Seq<EventFacts>,
    folded: Result<Option<Folded<R>>, String>,
)
    ensures
        load_next(LoadState::Folding(id, projection, events), Told::Folded(folded))
            == LoadState::Closing(Ok(())) <==> (folded matches Ok(Some(entity)) && R::agreement(
            entity,
            projection,
        ) is Ok),
{
    if let Ok(Some(entity)) = folded {
        if let Ok(unit) = R::agreement(entity, projection) {
            assert(unit == ());
        }
    }
}

/// Whether `row` is what the question for a projection finds of a journal that
/// `step` updated and that was created at `created`.
pub open spec fn keeps_updated_journal(
    step: Step<RepositoryCheck>,
    created: Seq<char>,
    row: Row,
) -> bool {
    &&& step matches Step::Run { statement, .. }
    &&& statement@ matches Asked::Execute(sql, params)
    &&& sql == UPDATE_JOURNAL@
    &&& params.len() == 7
    &&& params[0] matches Param::Integer(version)
    &&& integer_at(row, 0) == Ok::<i64, EngineFailure>(version)
    &&& holds_text(row, 1, params[1])
    &&& optional_text_at(row, 2) == Ok::<Option<Seq<char>>, EngineFailure>(None)
    &&& holds_text(row, 3, params[2])
    &&& holds_text(row, 4, params[3])
    &&& text_at(row, 5) == Ok::<Seq<char>, EngineFailure>(created)
    &&& holds_text(row, 6, params[4])
}

/// Whether `row` is what the question for a projection finds of an account that
/// `step` updated and that was created at `created`.
pub open spec fn keeps_updated_account(
    step: Step<RepositoryCheck>,
    created: Seq<char>,
    row: Row,
) -> bool {
    &&& step matches Step::Run { statement, .. }
    &&& statement@ matches Asked::Execute(sql, params)
    &&& sql == UPDATE_ACCOUNT@
    &&& params.len() == 8
    &&& params[0] matches Param::Integer(version)
    &&& integer_at(row, 0) == Ok::<i64, EngineFailure>(version)
    &&& holds_text(row, 1, params[2])
    &&& params[1] matches Param::Text(code)
    &&& optional_text_at(row, 2) == Ok::<Option<Seq<char>>, EngineFailure>(Some(code))
    &&& holds_text(row, 3, params[3])
    &&& holds_text(row, 4, params[4])
    &&& text_at(row, 5) == Ok::<Seq<char>, EngineFailure>(created)
    &&& holds_text(row, 6, params[5])
}

/// Whether the rows of a stream of `offset` events, followed by the rows of the
/// events that `steps` append, are what `reply` gives.
pub open spec fn extends_stream(
    reply: Reply,
    stored: Seq<Row>,
    steps: Seq<Step<RepositoryCheck>>,
    added: Seq<Row>,
    entity_kind: EntityKind,
    id: Seq<char>,
    offset: u32,
    payloads: Seq<Seq<char>>,
) -> bool {
    &&& stored.len() == offset
    &&& forall|i: int|
        0 <= i < stored.len() ==> event_of(#[trigger] stored[i], entity_kind, id, i + 1) is Ok
    &&& added.len() == payloads.len()
    &&& forall|i: int| 0 <= i < added.len() ==> keeps_event(#[trigger] steps[i], added[i])
    &&& forall|i: int| 0 <= i < payloads.len() ==> json_value(#[trigger] payloads[i]) is Ok
    &&& reply matches Ok(answer)
    &&& answer.rows@ == stored + added
    &&& answer.interrupted is None
}

/// A journal whose changes were stored is read back. If the engine gives back
/// the rows stored before and those that the steps stored, and the events
/// decode to their types and fold to the changed journal, then the load ends
/// well.
pub proof fn law_changed_journal_is_read_back(
    steps: Seq<Step<RepositoryCheck>>,
    facts: JournalFacts,
    payload: Seq<char>,
    event_types: Seq<Seq<char>>,
    event_payloads: Seq<Seq<char>>,
    timestamp: Seq<char>,
    at: (i64, u32),
    expected: u32,
    next: u32,
    created: Seq<char>,
    created_at: (i64, u32),
    projection_row: Row,
    stored: Seq<Row>,
    added: Seq<Row>,
    projection_reply: Reply,
    events_reply: Reply,
    types: Seq<String>,
    folded: Folded<JournalRecord>,
    begun: Reply,
    ended: Reply,
)
    requires
        updates_journal(
            steps,
            facts,
            payload,
            event_types,
            event_payloads,
            timestamp,
            expected,
            next,
        ),
        event_types.len() == event_payloads.len(),
        next == expected + event_payloads.len(),
        next <= i32::MAX,
        time_read(timestamp) == Ok::<(i64, u32), RepositoryFailure>(at),
        time_read(created) == Ok::<(i64, u32), RepositoryFailure>(created_at),
        begun is Ok,
        ended is Ok,
        gives(projection_reply, projection_row),
        keeps_updated_journal(steps.last(), created, projection_row),
        extends_stream(
            events_reply,
            stored,
            steps.subrange(if facts.code is Some { 2 } else { 1 }, steps.len() - 1),
            added,
            EntityKind::Journal,
            hyphenated(facts.id.0),
            expected,
            event_payloads,
        ),
        are_types_of(types, stream_of(stored + added, EntityKind::Journal, hyphenated(facts.id.0))),
        folded.record@ == facts,
        folded.created_at.at() == created_at,
        folded.modified_at.at() == at,
        same_values(payload, folded.values) == Ok::<bool, RepositoryFailure>(true),
    ensures
        accepted_load::<JournalRecord>(
            facts.id.0,
            begun,
            projection_reply,
            events_reply,
            types,
            folded,
            ended,
        ),
{
    let id = hyphenated(facts.id.0);
    let middle = steps.subrange(if facts.code is Some { 2 } else { 1 }, steps.len() - 1);
    let params = seq![
        Param::Integer(next as i64),
        Param::Text(facts.name),
        Param::Text(status_text(facts.status)),
        Param::Text(payload),
        Param::Text(timestamp),
        Param::Text(id),
        Param::Integer(expected as i64),
    ];
    assert(params[0] == Param::Integer(next as i64));
    assert(params[1] == Param::Text(facts.name));
    assert(params[2] == Param::Text(status_text(facts.status)));
    assert(params[3] == Param::Text(payload));
    assert(params[4] == Param::Text(timestamp));
    let projection = ProjectionFacts {
        version: next,
        name: facts.name,
        code: None,
        status: status_text(facts.status),
        payload,
        created_at,
        modified_at: at,
    };
    assert(seq![projection_row][0] == projection_row);
    assert(projection_of(projection_row, EntityKind::Journal, id) == Ok::<
        ProjectionFacts,
        RepositoryFailure,
    >(projection));
    law_appended_events_continue_the_stream(
        stored,
        middle,
        added,
        EntityKind::Journal,
        id,
        expected,
        event_types,
        event_payloads,
        timestamp,
        at,
        events_reply,
    );
    let events = stream_of(stored + added, EntityKind::Journal, id);
    assert(journal_agreement(folded, projection) == Ok::<(), RepositoryFailure>(()));
    law_agreeing_entity_is_accepted::<JournalRecord>(
        facts.id.0,
        projection_reply,
        events_reply,
        projection,
        events,
        types,
        folded,
        begun,
        ended,
    );
}

/// An account whose changes were stored is read back. If the engine gives back
/// the rows stored before and those that the steps stored, and the events
/// decode to their types and fold to the changed account, then the load ends
/// well.
pub proof fn law_changed_account_is_read_back(
    steps: Seq<Step<RepositoryCheck>>,
    facts: AccountFacts,
    payload: Seq<char>,
    event_types: Seq<Seq<char>>,
    event_payloads: Seq<Seq<char>>,
    timestamp: Seq<char>,
    at: (i64, u32),
    expected: u32,
    next: u32,
    created: Seq<char>,
    created_at: (i64, u32),
    projection_row: Row,
    stored: Seq<Row>,
    added: Seq<Row>,
    projection_reply: Reply,
    events_reply: Reply,
    types: Seq<String>,
    folded: Folded<AccountRecord>,
    begun: Reply,
    ended: Reply,
)
    requires
        updates_account(
            steps,
            facts,
            payload,
            event_types,
            event_payloads,
            timestamp,
            expected,
            next,
        ),
        !facts.is_account_set,
        event_types.len() == event_payloads.len(),
        next == expected + event_payloads.len(),
        next <= i32::MAX,
        time_read(timestamp) == Ok::<(i64, u32), RepositoryFailure>(at),
        time_read(created) == Ok::<(i64, u32), RepositoryFailure>(created_at),
        begun is Ok,
        ended is Ok,
        gives(projection_reply, projection_row),
        keeps_updated_account(steps.last(), created, projection_row),
        extends_stream(
            events_reply,
            stored,
            steps.subrange(if facts.external_id is Some { 2 } else { 1 }, steps.len() - 1),
            added,
            EntityKind::Account,
            hyphenated(facts.id.0),
            expected,
            event_payloads,
        ),
        are_types_of(types, stream_of(stored + added, EntityKind::Account, hyphenated(facts.id.0))),
        folded.record@ == facts,
        folded.created_at.at() == created_at,
        folded.modified_at.at() == at,
        same_values(payload, folded.values) == Ok::<bool, RepositoryFailure>(true),
    ensures
        accepted_load::<AccountRecord>(
            facts.id.0,
            begun,
            projection_reply,
            events_reply,
            types,
            folded,
            ended,
        ),
{
    let id = hyphenated(facts.id.0);
    let middle = steps.subrange(if facts.external_id is Some { 2 } else { 1 }, steps.len() - 1);
    let params = seq![
        Param::Integer(next as i64),
        Param::Text(facts.code),
        Param::Text(facts.name),
        Param::Text(status_text(facts.status)),
        Param::Text(payload),
        Param::Text(timestamp),
        Param::Text(id),
        Param::Integer(expected as i64),
    ];
    assert(params[0] == Param::Integer(next as i64));
    assert(params[1] == Param::Text(facts.code));
    assert(params[2] == Param::Text(facts.name));
    assert(params[3] == Param::Text(status_text(facts.status)));
    assert(params[4] == Param::Text(payload));
    assert(params[5] == Param::Text(timestamp));
    let projection = ProjectionFacts {
        version: next,
        name: facts.name,
        code: Some(facts.code),
        status: status_text(facts.status),
        payload,
        created_at,
        modified_at: at,
    };
    assert(seq![projection_row][0] == projection_row);
    assert(projection_of(projection_row, EntityKind::Account, id) == Ok::<
        ProjectionFacts,
        RepositoryFailure,
    >(projection));
    law_appended_events_continue_the_stream(
        stored,
        middle,
        added,
        EntityKind::Account,
        id,
        expected,
        event_types,
        event_payloads,
        timestamp,
        at,
        events_reply,
    );
    let events = stream_of(stored + added, EntityKind::Account, id);
    assert(account_agreement(folded, projection) == Ok::<(), RepositoryFailure>(()));
    law_agreeing_entity_is_accepted::<AccountRecord>(
        facts.id.0,
        projection_reply,
        events_reply,
        projection,
        events,
        types,
        folded,
        begun,
        ended,
    );
}

/// A change that is refused because the stored version is not the one that was
/// read changes nothing: the version is all that was asked before the rollback.
pub proof fn law_stale_change_stores_nothing(
    steps: Seq<Step<RepositoryCheck>>,
    h: History<RepositoryCheck>,
    entity_kind: EntityKind,
    id: Seq<char>,
    expected: u32,
)
    requires
        steps.len() > 0,
        checks_version(steps[0], entity_kind, id, expected),
        is_history(End::Commit, steps, h),
        h.replies.len() >= 2,
        h.replies[0] is Ok,
        stored_version(h.replies[1], entity_kind, id, expected) is Err,
    ensures
        h.requests[1] matches Request::Run(statement) && statement@ is Query,
        h.requests[2] is Rollback,
        forall|k: int| 2 < k <= h.replies.len() ==> (#[trigger] h.requests[k]) is Stop,
{
    assert(follows(
        End::Commit,
        h.phases[0],
        h.replies[0],
        h.phases[0int + 1],
        h.requests[0int + 1],
    ));
    assert(!accepts(steps[0], h.replies[1])) by {
        let check = steps[0]->check;
        if takes(check, h.replies[1]) {
            let present = choose|present: bool| #[trigger]
                check.judged(h.replies[1], Ok::<bool, RepositoryError>(present));
            assert(repository_verdict(check@, h.replies[1]) is Ok);
        }
    }
    law_refused_reply_is_the_last(End::Commit, steps, h, 1);
    assert forall|k: int| 2 < k <= h.replies.len() implies (#[trigger] h.requests[k]) is Stop by {
        law_rollback_is_final(End::Commit, steps, h, 2, k);
    }
}

/// A change without new events only checks the stored version, whatever
/// becomes of it.
pub proof fn law_change_without_events_stores_nothing(
    change: Change,
    h: History<RepositoryCheck>,
    entity_kind: EntityKind,
    id: u128,
    expected: u32,
    k: int,
)
    requires
        leaves_unchanged(change, entity_kind, id, expected),
        is_history(End::Commit, change.steps(), h),
        0 <= k <= h.replies.len(),
    ensures
        h.requests[k] matches Request::Run(statement) ==> k == 1 && statement@ is Query,
{
    law_statements_are_steps(End::Commit, change.steps(), h, k);
}

/// A change that committed has appended its events in order after the check of
/// the stored version, and then updated one projection row and no other.
pub proof fn law_committed_change_updated_one_row(
    steps: Seq<Step<RepositoryCheck>>,
    h: History<RepositoryCheck>,
    i: int,
)
    requires
        steps.len() > 0,
        steps.last() matches Step::Run { check, .. } && (check@ is JournalUpdated
            || check@ is AccountUpdated),
        is_history(End::Commit, steps, h),
        0 <= i <= h.replies.len(),
        h.phases[i] == Phase::<RepositoryCheck>::Closed(Ending::Committed),
    ensures
        asked(steps, h, steps.len() as int),
        h.replies[steps.len() as int] matches Ok(answer) && answer.changed == 1,
{
    law_committed_ran_every_step(End::Commit, steps, h, i);
    let n = steps.len() as int;
    assert(accepts(steps[n - 1], h.replies[n]));
    let check = steps[n - 1]->check;
    let present = choose|present: bool| #[trigger]
        check.judged(h.replies[n], Ok::<bool, RepositoryError>(present));
    assert(repository_verdict(check@, h.replies[n]) is Ok);
}

/// A change is admitted only for the version that the entity was read at, and
/// it leads to that version plus the number of its new events.
pub proof fn law_versions_count_events(
    entity_kind: EntityKind,
    id: u128,
    expected: u32,
    persisted: usize,
    encoded: Encoded,
    at: (i64, u32),
    next: u32,
)
    requires
        change_outcome(entity_kind, id, expected, persisted, encoded, at) == Ok::<
            u32,
            RepositoryFailure,
        >(next),
    ensures
        persisted == expected,
        encoded.event_payloads matches Ok(payloads) && next == expected + payloads@.len(),
{
}

/// Accounts that back account sets are refused before anything is asked of the
/// store.
pub proof fn law_account_sets_are_refused(
    draft: Draft<AccountRecord>,
    account: Changed<AccountRecord>,
    expected: u32,
    at: (i64, u32),
)
    ensures
        draft.first matches Some(FirstEvent::Initialized(record)) && record.is_account_set
            ==> account_draft_fault(draft, at) == Some(RepositoryFailure::AccountSetUnsupported),
        account.record.is_account_set ==> account_outcome(account, expected, at) == Err::<
            u32,
            RepositoryFailure,
        >(RepositoryFailure::AccountSetUnsupported),
{
}

/// Inside its transaction a load asks nothing but queries.
pub proof fn law_loads_only_query(entity_kind: EntityKind, state: LoadState)
    ensures
        load_need(entity_kind, state) matches LoadNeed::Ask(asked) ==> asked is Query,
        load_need(entity_kind, state) matches LoadNeed::Begin(behavior) ==> behavior
            == TransactionBehavior::Deferred,
{
}

/// A load that began a transaction closes it before it ends: it ends where it
/// could not begin, or where the close was requested.
pub proof fn law_loads_close_what_they_began<R: Entity>(state: LoadState, told: Told<R>)
    requires
        !(state is Closed),
        load_next(state, told) is Closed,
    ensures
        state is Closing || (state is Opening && (told matches Told::Replied(reply) && reply is Err)),
        state is Closing <==> load_need(R::kind(), state) is Close,
{
}

/// A load uses one transaction: it begins one only where it opens, never comes
/// back there, and asks its questions between the begin and the close.
pub proof fn law_loads_use_one_transaction<R: Entity>(state: LoadState, told: Told<R>)
    ensures
        load_need(R::kind(), state) is Begin <==> state is Opening,
        load_need(R::kind(), state) is Ask ==> !(state is Opening) && !(state is Closing) && !(
        state is Closed),
        load_next(state, told) is Opening ==> state is Opening,
        state is Closing ==> load_next(state, told) is Closing || load_next(state, told) is Closed,
        state is Closed ==> load_next(state, told) == state,
{
}

/// Whether what a load is told answers what it needs.
pub open spec fn answers<R: Entity>(need: LoadNeed, told: Told<R>) -> bool {
    match need {
        LoadNeed::Decode(_) => told is Decoded,
        LoadNeed::Fold(_) => told is Folded,
        LoadNeed::Stop => false,
        _ => told is Replied,
    }
}

/// How far a load has come.
pub open spec fn progress_of(state: LoadState) -> int {
    match state {
        LoadState::Opening(_) => 0,
        LoadState::Identifying { .. } => 1,
        LoadState::Projecting(_) => 2,
        LoadState::Streaming(_, _) => 3,
        LoadState::Decoding(_, _, _, n) => 4 + n,
        LoadState::Folding(_, _, events) => 4 + events.len() as int,
        LoadState::Closing(_) => i32::MAX + 5,
        LoadState::Closed(_) => i32::MAX + 6,
    }
}

/// Every answer brings a load further, so that it ends.
pub proof fn law_loads_advance<R: Entity>(state: LoadState, told: Told<R>)
    requires
        answers(load_need(R::kind(), state), told),
        state matches LoadState::Decoding(_, projection, events, n) ==> 0 <= n < events.len()
            <= i32::MAX,
        state matches LoadState::Folding(_, projection, events) ==> events.len() <= i32::MAX,
    ensures
        progress_of(load_next(state, told)) > progress_of(state),
        progress_of(load_next(state, told)) <= i32::MAX + 6,
{
    if let (LoadState::Streaming(id, projection), Told::Replied(reply)) = (state, told) {
        if let Ok(events) = events_read(reply, R::kind(), hyphenated(id), projection.version) {
            law_streams_have_no_gaps(reply, R::kind(), hyphenated(id), projection.version, events);
            if events.len() > 0 {
                let last = events.len() - 1;
                assert(events[last].sequence == last + 1);
            }
        }
    }
}

/// Events in different places of a stream have different identifiers.
pub proof fn law_event_ids_differ(
    entity_kind: EntityKind,
    id: Seq<char>,
    first: u32,
    second: u32,
)
    ensures
        event_id(entity_kind, id, first as int) == event_id(entity_kind, id, second as int)
            <==> first == second,
{
    let front = kind_name(entity_kind) + ":"@ + id + ":"@;
    let a = event_id(entity_kind, id, first as int);
    let b = event_id(entity_kind, id, second as int);
    if a == b {
        assert(a.skip(front.len() as int) =~= digits(first as nat));
        assert(b.skip(front.len() as int) =~= digits(second as nat));
        lemma_digits_differ(first as nat, second as nat);
    }
}

} // verus!
