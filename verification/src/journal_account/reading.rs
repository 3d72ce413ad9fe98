//! What is read of journals and accounts from the tables.
use crate::identity::hyphenated;
use crate::journal_account::answers::{
    lemma_events_found, lemma_identifier_found, lemma_projection_found,
};
use crate::journal_account::codec::encode_id;
use crate::journal_account::entity::{Entity, Folded};
use crate::journal_account::error::{kind_name, EntityKind, RepositoryError, RepositoryFailure};
use crate::journal_account::keeping::{says_missing, status_column};
use crate::journal_account::load::{
    decoding, find_account, find_account_by_code, find_account_by_external_id, find_journal,
    find_journal_by_code, load_need, load_next, Load, LoadRequest, LoadState, Told,
};
use crate::journal_account::record::{AccountRecord, JournalRecord};
use crate::journal_account::stored::{
    event_of, events_of, events_read, first_broken, projection_read, stream_of, EventFacts,
    ProjectionFacts, RawEvent,
};
use crate::journal_account::tables::{
    account_has_code, account_has_external_id, answers, event_at, has_event, journal_has_code,
    lists_events, shows_event, AccountRow, JournalRow, Paths, Tables,
};
use crate::json::{json_same, json_text, json_value};
use crate::primitives::{AccountId, JournalId};
use crate::storage::engine::{Reply, Row, TransactionBehavior};
use crate::text::debug_form;
use crate::time::rfc3339_instant;
use vstd::prelude::*;
use vstd::string::*;

verus! {

/// A load as it is stepped: where it stood, what it needed there, and what it was
/// told.
pub struct Reading<R: Entity> {
    pub loads: Seq<Load<R>>,
    pub needs: Seq<LoadRequest>,
    pub told: Seq<Told<R>>,
}

/// Whether the load at place `i` needs what is noted there.
pub open spec fn needs_at<R: Entity>(r: Reading<R>, i: int) -> bool {
    call_ensures(Load::<R>::request, (&r.loads[i],), r.needs[i])
}

/// Whether the load at place `i`, told what is noted there, becomes the next one.
pub open spec fn moves_at<R: Entity>(r: Reading<R>, i: int) -> bool {
    call_ensures(Load::<R>::step, (r.loads[i], r.told[i]), r.loads[i + 1])
}

/// Whether `r` is what comes of `load`.
pub open spec fn comes_of<R: Entity>(load: Load<R>, r: Reading<R>) -> bool {
    &&& r.loads.len() == r.told.len() + 1
    &&& r.needs.len() == r.loads.len()
    &&& r.loads[0] == load
    &&& forall|i: int| 0 <= i < r.loads.len() ==> #[trigger] needs_at(r, i)
    &&& forall|i: int| 0 <= i < r.told.len() ==> #[trigger] moves_at(r, i)
}

/// Whether `told` is what a need gets from an engine that answers from the
/// tables, and for events from `types`, the type that each payload decodes to.
pub open spec fn fulfils<R: Entity>(
    paths: Paths,
    tables: Tables,
    types: spec_fn(Seq<char>) -> Seq<char>,
    need: LoadRequest,
    told: Told<R>,
) -> bool {
    match need {
        LoadRequest::Begin(_) | LoadRequest::Close => told matches Told::Replied(reply) && reply
            is Ok,
        LoadRequest::Ask(statement) => told matches Told::Replied(reply) && answers(
            paths,
            tables,
            statement,
            reply,
            tables,
        ),
        LoadRequest::Decode(payload) => told matches Told::Decoded(decoded) && (decoded matches Ok(
            found,
        ) && found@ == types(payload@)),
        LoadRequest::Fold(_) => told is Folded,
        LoadRequest::Stop => true,
    }
}

/// Whether each need of `r` is fulfilled from the tables.
pub open spec fn fulfilled<R: Entity>(
    paths: Paths,
    tables: Tables,
    types: spec_fn(Seq<char>) -> Seq<char>,
    r: Reading<R>,
) -> bool {
    forall|i: int| 0 <= i < r.told.len() ==> #[trigger] fulfilled_at(paths, tables, types, r, i)
}

/// Whether the need of `r` at place `i` is fulfilled from the tables.
pub open spec fn fulfilled_at<R: Entity>(
    paths: Paths,
    tables: Tables,
    types: spec_fn(Seq<char>) -> Seq<char>,
    r: Reading<R>,
    i: int,
) -> bool {
    fulfils(paths, tables, types, r.needs[i], r.told[i])
}

/// Whether an entity has exactly the events 1 to `version`, and each can be read:
/// its payload is JSON of its type, and its time is a time.
pub open spec fn stream_stored(
    tables: Tables,
    types: spec_fn(Seq<char>) -> Seq<char>,
    kind: Seq<char>,
    entity: Seq<char>,
    version: int,
) -> bool {
    &&& 0 <= version <= i32::MAX
    &&& forall|sequence: i64| #[trigger]
        has_event(tables, kind, entity, sequence) <==> 1 <= sequence <= version
    &&& forall|sequence: i64|
        1 <= sequence <= version ==> {
            let event = #[trigger] event_at(tables, kind, entity, sequence);
            &&& json_value(event.payload) is Ok
            &&& types(event.payload) == event.event_type
            &&& rfc3339_instant(event.recorded_at) is Ok
        }
}

proof fn lemma_numbers(
    tables: Tables,
    types: spec_fn(Seq<char>) -> Seq<char>,
    kind: Seq<char>,
    entity: Seq<char>,
    version: int,
    rows: Seq<Row>,
    numbers: Seq<i64>,
    n: int,
)
    requires
        stream_stored(tables, types, kind, entity, version),
        lists_events(tables, kind, entity, rows, numbers),
        0 <= n <= numbers.len(),
    ensures
        n <= version,
        forall|i: int| 0 <= i < n ==> #[trigger] numbers[i] == i + 1,
    decreases n,
{
    if n > 0 {
        let i = n - 1;
        lemma_numbers(tables, types, kind, entity, version, rows, numbers, i);
        assert(has_event(tables, kind, entity, numbers[i]));
        if i > 0 {
            assert(numbers[i - 1] == i);
            assert(numbers[i - 1] < numbers[i]);
        }
        assert(numbers[i] >= i + 1);
        let value = (i + 1) as i64;
        assert(has_event(tables, kind, entity, value));
        assert(numbers.contains(value));
        let j = choose|j: int| 0 <= j < numbers.len() && numbers[j] == value;
        if j < i {
            assert(numbers[j] == j + 1);
        }
        if j > i {
            assert(numbers[i] < numbers[j]);
        }
    }
}

proof fn lemma_rows(
    tables: Tables,
    types: spec_fn(Seq<char>) -> Seq<char>,
    kind: Seq<char>,
    entity: Seq<char>,
    version: int,
    rows: Seq<Row>,
)
    requires
        stream_stored(tables, types, kind, entity, version),
        exists|numbers: Seq<i64>| lists_events(tables, kind, entity, rows, numbers),
    ensures
        rows.len() == version,
        forall|i: int|
            0 <= i < version ==> shows_event(
                #[trigger] rows[i],
                (i + 1) as i64,
                event_at(tables, kind, entity, (i + 1) as i64),
            ),
{
    let numbers = choose|numbers: Seq<i64>| lists_events(tables, kind, entity, rows, numbers);
    lemma_numbers(
        tables,
        types,
        kind,
        entity,
        version,
        rows,
        numbers,
        numbers.len() as int,
    );
    if numbers.len() < version {
        let value = version as i64;
        assert(has_event(tables, kind, entity, value));
        let j = choose|j: int| 0 <= j < numbers.len() && numbers[j] == value;
        assert(numbers[j] == j + 1);
    }
    assert forall|i: int| 0 <= i < version implies shows_event(
        #[trigger] rows[i],
        (i + 1) as i64,
        event_at(tables, kind, entity, (i + 1) as i64),
    ) by {
        assert(numbers[i] == i + 1);
    }
}

/// The events of an entity as they are read.
spec fn read_events(tables: Tables, kind: Seq<char>, entity: Seq<char>, version: int) -> Seq<
    EventFacts,
> {
    Seq::new(
        version as nat,
        |i: int|
            EventFacts {
                sequence: (i + 1) as i32,
                event_type: event_at(tables, kind, entity, (i + 1) as i64).event_type,
                payload: event_at(tables, kind, entity, (i + 1) as i64).payload,
                recorded_at: rfc3339_instant(
                    event_at(tables, kind, entity, (i + 1) as i64).recorded_at,
                )->Ok_0,
            },
    )
}

proof fn lemma_events_read(
    tables: Tables,
    types: spec_fn(Seq<char>) -> Seq<char>,
    entity_kind: EntityKind,
    id: Seq<char>,
    version: u32,
    reply: Reply,
)
    requires
        stream_stored(tables, types, kind_name(entity_kind), id, version as int),
        reply matches Ok(answer) && answer.interrupted is None && exists|numbers: Seq<i64>|
            lists_events(tables, kind_name(entity_kind), id, answer.rows@, numbers),
    ensures
        events_read(reply, entity_kind, id, version) == Ok::<Seq<EventFacts>, RepositoryFailure>(
            read_events(tables, kind_name(entity_kind), id, version as int),
        ),
{
    let kind = kind_name(entity_kind);
    let rows = reply->Ok_0.rows@;
    let events = read_events(tables, kind, id, version as int);
    lemma_rows(tables, types, kind, id, version as int, rows);
    assert forall|i: int| 0 <= i < rows.len() implies event_of(
        #[trigger] rows[i],
        entity_kind,
        id,
        i + 1,
    ) == Ok::<EventFacts, RepositoryFailure>(events[i]) by {
        let sequence = (i + 1) as i64;
        let event = event_at(tables, kind, id, sequence);
        assert(shows_event(rows[i], sequence, event));
        assert(json_value(event.payload) is Ok);
    }
    assert forall|j: int| !first_broken(rows, entity_kind, id, j) by {
        if 0 <= j < rows.len() {
            assert(event_of(rows[j], entity_kind, id, j + 1) is Ok);
        }
    }
    assert(stream_of(rows, entity_kind, id) =~= events) by {
        assert forall|i: int| 0 <= i < rows.len() implies stream_of(rows, entity_kind, id)[i]
            == events[i] by {
            assert(event_of(rows[i], entity_kind, id, i + 1) == Ok::<
                EventFacts,
                RepositoryFailure,
            >(events[i]));
        }
    }
}

proof fn lemma_moved<R: Entity>(load: Load<R>, r: Reading<R>, i: int)
    requires
        comes_of(load, r),
        0 <= i < r.loads.len(),
    ensures
        r.needs[i]@ == load_need(R::kind(), r.loads[i].state()),
        i < r.told.len() ==> r.loads[i + 1].state() == load_next(r.loads[i].state(), r.told[i]),
{
    assert(needs_at(r, i));
    if i < r.told.len() {
        assert(moves_at(r, i));
    }
}

proof fn lemma_decoded<R: Entity>(
    paths: Paths,
    tables: Tables,
    types: spec_fn(Seq<char>) -> Seq<char>,
    load: Load<R>,
    r: Reading<R>,
    id: u128,
    projection: ProjectionFacts,
    version: int,
    from: int,
    n: int,
)
    requires
        comes_of(load, r),
        fulfilled(paths, tables, types, r),
        stream_stored(tables, types, kind_name(R::kind()), hyphenated(id), version),
        0 <= from,
        r.told.len() >= from + version,
        r.loads[from].state() == decoding(
            id,
            projection,
            read_events(tables, kind_name(R::kind()), hyphenated(id), version),
            0,
        ),
        0 <= n <= version,
    ensures
        r.loads[from + n].state() == decoding(
            id,
            projection,
            read_events(tables, kind_name(R::kind()), hyphenated(id), version),
            n,
        ),
    decreases n,
{
    if n > 0 {
        let k = n - 1;
        lemma_decoded(
            paths,
            tables,
            types,
            load,
            r,
            id,
            projection,
            version,
            from,
            k,
        );
        let i = from + k;
        lemma_moved(load, r, i);
        assert(fulfilled_at(paths, tables, types, r, i));
        let sequence = (k + 1) as i64;
        let event = event_at(tables, kind_name(R::kind()), hyphenated(id), sequence);
        assert(types(event.payload) == event.event_type);
        assert(r.needs[i] is Decode);
    }
}

/// Whether `list` is the stored events of an entity in their order.
pub open spec fn is_stream(
    tables: Tables,
    kind: Seq<char>,
    entity: Seq<char>,
    version: int,
    list: Seq<RawEvent>,
) -> bool {
    &&& list.len() == version
    &&& forall|i: int|
        0 <= i < version ==> {
            let event = event_at(tables, kind, entity, (i + 1) as i64);
            &&& (#[trigger] list[i]).sequence == i + 1
            &&& list[i].event_type@ == event.event_type
            &&& list[i].payload@ == event.payload
            &&& rfc3339_instant(event.recorded_at) == Ok::<(i64, u32), Seq<char>>(
                list[i].recorded_at.at(),
            )
        }
}

/// Whether `values` are the JSON value of `payload`.
pub open spec fn holds_values(payload: Seq<char>, values: Result<serde_json::Value, String>) -> bool {
    &&& json_value(payload) matches Ok(stored)
    &&& values matches Ok(folded)
    &&& stored == json_text(folded) || json_same(stored, json_text(folded))
}

/// Whether a stored journal says what its events fold to.
pub open spec fn journal_agrees(row: JournalRow, folded: Folded<JournalRecord>) -> bool {
    &&& row.name == folded.record.name@
    &&& row.status == status_column(folded.record.status)
    &&& rfc3339_instant(row.created_at) == Ok::<(i64, u32), Seq<char>>(folded.created_at.at())
    &&& rfc3339_instant(row.modified_at) == Ok::<(i64, u32), Seq<char>>(folded.modified_at.at())
    &&& holds_values(row.payload, folded.values)
}

/// Whether a stored account says what its events fold to.
pub open spec fn account_agrees(row: AccountRow, folded: Folded<AccountRecord>) -> bool {
    &&& !folded.record.is_account_set
    &&& row.code == folded.record.code@
    &&& row.name == folded.record.name@
    &&& row.status == status_column(folded.record.status)
    &&& rfc3339_instant(row.created_at) == Ok::<(i64, u32), Seq<char>>(folded.created_at.at())
    &&& rfc3339_instant(row.modified_at) == Ok::<(i64, u32), Seq<char>>(folded.modified_at.at())
    &&& holds_values(row.payload, folded.values)
}

spec fn journal_facts(row: JournalRow) -> ProjectionFacts {
    ProjectionFacts {
        version: row.version as u32,
        name: row.name,
        code: None,
        status: row.status,
        payload: row.payload,
        created_at: rfc3339_instant(row.created_at)->Ok_0,
        modified_at: rfc3339_instant(row.modified_at)->Ok_0,
    }
}

spec fn account_facts(row: AccountRow) -> ProjectionFacts {
    ProjectionFacts {
        version: row.version as u32,
        name: row.name,
        code: Some(row.code),
        status: row.status,
        payload: row.payload,
        created_at: rfc3339_instant(row.created_at)->Ok_0,
        modified_at: rfc3339_instant(row.modified_at)->Ok_0,
    }
}

/// From place `b` on, where the projection of entity `id` is read.
proof fn lemma_reads_on<R: Entity>(
    paths: Paths,
    tables: Tables,
    types: spec_fn(Seq<char>) -> Seq<char>,
    load: Load<R>,
    r: Reading<R>,
    b: int,
    id: u128,
    projection: ProjectionFacts,
)
    requires
        comes_of(load, r),
        fulfilled(paths, tables, types, r),
        0 <= b,
        r.told.len() > b + projection.version + 3,
        r.loads[b].state() == LoadState::Projecting(id),
        forall|reply: Reply|
            #![trigger projection_read(reply, R::kind(), hyphenated(id))]
            r.told[b] == Told::<R>::Replied(reply) ==> projection_read(
                reply,
                R::kind(),
                hyphenated(id),
            ) == Ok::<ProjectionFacts, RepositoryFailure>(projection),
        stream_stored(
            tables,
            types,
            kind_name(R::kind()),
            hyphenated(id),
            projection.version as int,
        ),
    ensures
        r.loads[b + 2 + projection.version].state() == LoadState::Folding(
            id,
            projection,
            read_events(
                tables,
                kind_name(R::kind()),
                hyphenated(id),
                projection.version as int,
            ),
        ),
        r.needs[b + 2 + projection.version] == LoadRequest::Fold(id),
        r.told[b + 2 + projection.version] matches Told::Folded(folded) && match folded {
            Ok(Some(entity)) => R::agreement(entity, projection) is Ok
                <==> r.loads[b + 4 + projection.version].state() == LoadState::Closed(Ok(())),
            _ => r.loads[b + 4 + projection.version].state() matches LoadState::Closed(Err(_)),
        },
        r.loads[b + 4 + projection.version].state() is Closed,
{
    let v = projection.version as int;
    let kind = kind_name(R::kind());
    let events = read_events(tables, kind, hyphenated(id), v);
    lemma_moved(load, r, b);
    assert(fulfilled_at(paths, tables, types, r, b));
    assert(r.told[b] is Replied);
    let first = r.told[b]->Replied_0;
    assert(projection_read(first, R::kind(), hyphenated(id)) is Ok);
    let q = b + 1;
    assert(r.loads[q].state() == LoadState::Streaming(id, projection));
    lemma_moved(load, r, q);
    assert(fulfilled_at(paths, tables, types, r, q));
    let second = r.told[q]->Replied_0;
    lemma_events_found(
        paths,
        tables,
        r.needs[q]->Ask_0,
        second,
        tables,
        kind,
        hyphenated(id),
    );
    lemma_events_read(tables, types, R::kind(), hyphenated(id), projection.version, second);
    let from = b + 2;
    assert(r.loads[q + 1].state() == decoding(id, projection, events, 0));
    lemma_decoded(paths, tables, types, load, r, id, projection, v, from, v);
    let f = from + v;
    lemma_moved(load, r, f);
    assert(fulfilled_at(paths, tables, types, r, f));
    assert(r.needs[f] is Fold);
    let c = f + 1;
    lemma_moved(load, r, c);
    assert(fulfilled_at(paths, tables, types, r, c));
    assert(r.needs[c] is Close);
    if let Told::Folded(Ok(Some(entity))) = r.told[f] {
        if let Ok(unit) = R::agreement(entity, projection) {
            assert(unit == ());
        }
    }
}

proof fn lemma_stream_list<R: Entity>(
    tables: Tables,
    types: spec_fn(Seq<char>) -> Seq<char>,
    id: u128,
    projection: ProjectionFacts,
    load: Load<R>,
    list: Option<&Vec<RawEvent>>,
)
    requires
        stream_stored(
            tables,
            types,
            kind_name(R::kind()),
            hyphenated(id),
            projection.version as int,
        ),
        load.state() == LoadState::Folding(
            id,
            projection,
            read_events(
                tables,
                kind_name(R::kind()),
                hyphenated(id),
                projection.version as int,
            ),
        ),
        call_ensures(Load::<R>::events, (&load,), list),
    ensures
        list matches Some(found) && is_stream(
            tables,
            kind_name(R::kind()),
            hyphenated(id),
            projection.version as int,
            found@,
        ),
{
    let kind = kind_name(R::kind());
    let v = projection.version as int;
    let found = list->0@;
    let events = read_events(tables, kind, hyphenated(id), v);
    assert(events_of(found) == events);
    assert(found.len() == events_of(found).len());
    assert forall|i: int| 0 <= i < v implies {
        let event = event_at(tables, kind, hyphenated(id), (i + 1) as i64);
        &&& (#[trigger] found[i]).sequence == i + 1
        &&& found[i].event_type@ == event.event_type
        &&& found[i].payload@ == event.payload
        &&& rfc3339_instant(event.recorded_at) == Ok::<(i64, u32), Seq<char>>(
            found[i].recorded_at.at(),
        )
    } by {
        let sequence = (i + 1) as i64;
        let event = event_at(tables, kind, hyphenated(id), sequence);
        assert(rfc3339_instant(event.recorded_at) is Ok);
        assert(events_of(found)[i] == events[i]);
    }
}

proof fn lemma_journal_from(
    paths: Paths,
    tables: Tables,
    types: spec_fn(Seq<char>) -> Seq<char>,
    load: Load<JournalRecord>,
    r: Reading<JournalRecord>,
    b: int,
    id: u128,
    list: Option<&Vec<RawEvent>>,
    result: Option<Result<(), RepositoryError>>,
)
    requires
        comes_of(load, r),
        fulfilled(paths, tables, types, r),
        0 <= b,
        r.loads[b].state() == LoadState::Projecting(id),
        readable_journal(tables, types, hyphenated(id)),
        r.told.len() > b + tables.journals[hyphenated(id)].version + 3,
        call_ensures(
            Load::<JournalRecord>::events,
            (&r.loads[b + 2 + tables.journals[hyphenated(id)].version],),
            list,
        ),
        call_ensures(
            Load::<JournalRecord>::result,
            (r.loads[b + 4 + tables.journals[hyphenated(id)].version],),
            result,
        ),
    ensures
        read_as_journal(tables, hyphenated(id), id, r, b, list, result),
{
    let row = tables.journals[hyphenated(id)];
    let v = row.version as int;
    let projection = journal_facts(row);
    lemma_moved(load, r, b);
    assert(fulfilled_at(paths, tables, types, r, b));
    assert(r.needs[b] is Ask);
    assert forall|reply: Reply|
        #![trigger projection_read(reply, EntityKind::Journal, hyphenated(id))]
        r.told[b] == Told::<JournalRecord>::Replied(reply) implies projection_read(
        reply,
        EntityKind::Journal,
        hyphenated(id),
    ) == Ok::<ProjectionFacts, RepositoryFailure>(projection) by {
        lemma_projection_found(
            paths,
            tables,
            r.needs[b]->Ask_0,
            reply,
            tables,
            hyphenated(id),
        );
    }
    lemma_reads_on(paths, tables, types, load, r, b, id, projection);
    lemma_stream_list(tables, types, id, projection, r.loads[b + 2 + v], list);
    if let Told::Folded(Ok(Some(entity))) = r.told[b + 2 + v] {
        assert(journal_agrees(row, entity) <==> <JournalRecord as Entity>::agreement(
            entity,
            projection,
        ) is Ok);
    }
}

/// Whether the journal `entity` is stored with a version that counts its events, can
/// be read, and so can its events.
pub open spec fn readable_journal(
    tables: Tables,
    types: spec_fn(Seq<char>) -> Seq<char>,
    entity: Seq<char>,
) -> bool {
    let row = tables.journals[entity];
    &&& tables.journals.dom().contains(entity)
    &&& rfc3339_instant(row.created_at) is Ok
    &&& rfc3339_instant(row.modified_at) is Ok
    &&& stream_stored(tables, types, "journal"@, entity, row.version as int)
}

/// Whether the load, from place `b` on, hands out the stored events of the
/// journal, asks for their fold, and ends well exactly if the fold agrees with
/// the row.
pub open spec fn read_as_journal(
    tables: Tables,
    entity: Seq<char>,
    id: u128,
    r: Reading<JournalRecord>,
    b: int,
    list: Option<&Vec<RawEvent>>,
    result: Option<Result<(), RepositoryError>>,
) -> bool {
    let row = tables.journals[entity];
    let v = row.version as int;
    &&& list matches Some(found)
    &&& is_stream(tables, "journal"@, entity, v, found@)
    &&& r.needs[b + 2 + v] == LoadRequest::Fold(id)
    &&& result matches Some(outcome)
    &&& r.told[b + 2 + v] matches Told::Folded(folded)
    &&& outcome is Ok <==> (folded matches Ok(Some(found)) && journal_agrees(row, found))
}

/// A stored journal is found by its identifier, in one read-only transaction: the
/// load hands out its events and ends well exactly if they fold to what its row
/// says.
pub proof fn law_stored_journal_is_found(
    id: JournalId,
    text: String,
    load: Load<JournalRecord>,
    paths: Paths,
    tables: Tables,
    types: spec_fn(Seq<char>) -> Seq<char>,
    r: Reading<JournalRecord>,
    list: Option<&Vec<RawEvent>>,
    result: Option<Result<(), RepositoryError>>,
)
    requires
        call_ensures(encode_id, (id.0,), text),
        call_ensures(find_journal, (id,), load),
        comes_of(load, r),
        fulfilled(paths, tables, types, r),
        readable_journal(tables, types, text@),
        r.told.len() > tables.journals[text@].version + 4,
        call_ensures(
            Load::<JournalRecord>::events,
            (&r.loads[tables.journals[text@].version + 3],),
            list,
        ),
        call_ensures(
            Load::<JournalRecord>::result,
            (r.loads[tables.journals[text@].version + 5],),
            result,
        ),
    ensures
        r.needs[0] == LoadRequest::Begin(TransactionBehavior::Deferred),
        read_as_journal(tables, text@, id.0, r, 1, list, result),
{
    lemma_moved(load, r, 0);
    assert(fulfilled_at(paths, tables, types, r, 0));
    let v = tables.journals[text@].version as int;
    assert(r.loads[0int + 1].state() == LoadState::Projecting(id.0));
    assert(1 + 2 + v == v + 3);
    assert(1 + 4 + v == v + 5);
    lemma_journal_from(paths, tables, types, load, r, 1, id.0, list, result);
}

/// A journal that is not stored is reported as missing by its identifier.
pub proof fn law_missing_journal_is_not_found(
    id: JournalId,
    text: String,
    load: Load<JournalRecord>,
    paths: Paths,
    tables: Tables,
    types: spec_fn(Seq<char>) -> Seq<char>,
    r: Reading<JournalRecord>,
    result: Option<Result<(), RepositoryError>>,
)
    requires
        call_ensures(encode_id, (id.0,), text),
        call_ensures(find_journal, (id,), load),
        comes_of(load, r),
        fulfilled(paths, tables, types, r),
        !tables.journals.dom().contains(text@),
        r.told.len() > 2,
        call_ensures(Load::<JournalRecord>::result, (r.loads[3],), result),
    ensures
        r.needs[2] is Close,
        result matches Some(Err(error)) && says_missing(error, EntityKind::Journal, text@),
{
    lemma_moved(load, r, 0);
    assert(fulfilled_at(paths, tables, types, r, 0));
    assert(r.loads[0int + 1].state() == LoadState::Projecting(id.0));
    lemma_moved(load, r, 1);
    assert(fulfilled_at(paths, tables, types, r, 1));
    assert(r.needs[1] is Ask);
    lemma_projection_found(
        paths,
        tables,
        r.needs[1]->Ask_0,
        r.told[1]->Replied_0,
        tables,
        hyphenated(id.0),
    );
    assert(r.loads[1int + 1].state() is Closing);
    lemma_moved(load, r, 2);
    assert(fulfilled_at(paths, tables, types, r, 2));
}

proof fn lemma_account_from(
    paths: Paths,
    tables: Tables,
    types: spec_fn(Seq<char>) -> Seq<char>,
    load: Load<AccountRecord>,
    r: Reading<AccountRecord>,
    b: int,
    id: u128,
    list: Option<&Vec<RawEvent>>,
    result: Option<Result<(), RepositoryError>>,
)
    requires
        comes_of(load, r),
        fulfilled(paths, tables, types, r),
        0 <= b,
        r.loads[b].state() == LoadState::Projecting(id),
        readable_account(tables, types, hyphenated(id)),
        r.told.len() > b + tables.accounts[hyphenated(id)].version + 3,
        call_ensures(
            Load::<AccountRecord>::events,
            (&r.loads[b + 2 + tables.accounts[hyphenated(id)].version],),
            list,
        ),
        call_ensures(
            Load::<AccountRecord>::result,
            (r.loads[b + 4 + tables.accounts[hyphenated(id)].version],),
            result,
        ),
    ensures
        read_as_account(tables, hyphenated(id), id, r, b, list, result),
{
    let row = tables.accounts[hyphenated(id)];
    let v = row.version as int;
    let projection = account_facts(row);
    lemma_moved(load, r, b);
    assert(fulfilled_at(paths, tables, types, r, b));
    assert(r.needs[b] is Ask);
    assert forall|reply: Reply|
        #![trigger projection_read(reply, EntityKind::Account, hyphenated(id))]
        r.told[b] == Told::<AccountRecord>::Replied(reply) implies projection_read(
        reply,
        EntityKind::Account,
        hyphenated(id),
    ) == Ok::<ProjectionFacts, RepositoryFailure>(projection) by {
        lemma_projection_found(
            paths,
            tables,
            r.needs[b]->Ask_0,
            reply,
            tables,
            hyphenated(id),
        );
    }
    lemma_reads_on(paths, tables, types, load, r, b, id, projection);
    lemma_stream_list(tables, types, id, projection, r.loads[b + 2 + v], list);
    if let Told::Folded(Ok(Some(entity))) = r.told[b + 2 + v] {
        assert(account_agrees(row, entity) <==> <AccountRecord as Entity>::agreement(
            entity,
            projection,
        ) is Ok);
    }
}

/// Whether the account `entity` is stored with a version that counts its events, can
/// be read, and so can its events.
pub open spec fn readable_account(
    tables: Tables,
    types: spec_fn(Seq<char>) -> Seq<char>,
    entity: Seq<char>,
) -> bool {
    let row = tables.accounts[entity];
    &&& tables.accounts.dom().contains(entity)
    &&& rfc3339_instant(row.created_at) is Ok
    &&& rfc3339_instant(row.modified_at) is Ok
    &&& stream_stored(tables, types, "account"@, entity, row.version as int)
}

/// Whether the load, from place `b` on, hands out the stored events of the
/// account, asks for their fold, and ends well exactly if the fold agrees with
/// the row.
pub open spec fn read_as_account(
    tables: Tables,
    entity: Seq<char>,
    id: u128,
    r: Reading<AccountRecord>,
    b: int,
    list: Option<&Vec<RawEvent>>,
    result: Option<Result<(), RepositoryError>>,
) -> bool {
    let row = tables.accounts[entity];
    let v = row.version as int;
    &&& list matches Some(found)
    &&& is_stream(tables, "account"@, entity, v, found@)
    &&& r.needs[b + 2 + v] == LoadRequest::Fold(id)
    &&& result matches Some(outcome)
    &&& r.told[b + 2 + v] matches Told::Folded(folded)
    &&& outcome is Ok <==> (folded matches Ok(Some(found)) && account_agrees(row, found))
}

/// A stored account is found by its identifier, in one read-only transaction: the
/// load hands out its events and ends well exactly if they fold to what its row
/// says.
pub proof fn law_stored_account_is_found(
    id: AccountId,
    text: String,
    load: Load<AccountRecord>,
    paths: Paths,
    tables: Tables,
    types: spec_fn(Seq<char>) -> Seq<char>,
    r: Reading<AccountRecord>,
    list: Option<&Vec<RawEvent>>,
    result: Option<Result<(), RepositoryError>>,
)
    requires
        call_ensures(encode_id, (id.0,), text),
        call_ensures(find_account, (id,), load),
        comes_of(load, r),
        fulfilled(paths, tables, types, r),
        readable_account(tables, types, text@),
        r.told.len() > tables.accounts[text@].version + 4,
        call_ensures(
            Load::<AccountRecord>::events,
            (&r.loads[tables.accounts[text@].version + 3],),
            list,
        ),
        call_ensures(
            Load::<AccountRecord>::result,
            (r.loads[tables.accounts[text@].version + 5],),
            result,
        ),
    ensures
        r.needs[0] == LoadRequest::Begin(TransactionBehavior::Deferred),
        read_as_account(tables, text@, id.0, r, 1, list, result),
{
    lemma_moved(load, r, 0);
    assert(fulfilled_at(paths, tables, types, r, 0));
    let v = tables.accounts[text@].version as int;
    assert(r.loads[0int + 1].state() == LoadState::Projecting(id.0));
    assert(1 + 2 + v == v + 3);
    assert(1 + 4 + v == v + 5);
    lemma_account_from(paths, tables, types, load, r, 1, id.0, list, result);
}

/// A account that is not stored is reported as missing by its identifier.
pub proof fn law_missing_account_is_not_found(
    id: AccountId,
    text: String,
    load: Load<AccountRecord>,
    paths: Paths,
    tables: Tables,
    types: spec_fn(Seq<char>) -> Seq<char>,
    r: Reading<AccountRecord>,
    result: Option<Result<(), RepositoryError>>,
)
    requires
        call_ensures(encode_id, (id.0,), text),
        call_ensures(find_account, (id,), load),
        comes_of(load, r),
        fulfilled(paths, tables, types, r),
        !tables.accounts.dom().contains(text@),
        r.told.len() > 2,
        call_ensures(Load::<AccountRecord>::result, (r.loads[3],), result),
    ensures
        r.needs[2] is Close,
        result matches Some(Err(error)) && says_missing(error, EntityKind::Account, text@),
{
    lemma_moved(load, r, 0);
    assert(fulfilled_at(paths, tables, types, r, 0));
    assert(r.loads[0int + 1].state() == LoadState::Projecting(id.0));
    lemma_moved(load, r, 1);
    assert(fulfilled_at(paths, tables, types, r, 1));
    assert(r.needs[1] is Ask);
    lemma_projection_found(
        paths,
        tables,
        r.needs[1]->Ask_0,
        r.told[1]->Replied_0,
        tables,
        hyphenated(id.0),
    );
    assert(r.loads[1int + 1].state() is Closing);
    lemma_moved(load, r, 2);
    assert(fulfilled_at(paths, tables, types, r, 2));
}

/// A stored journal is found by its code, as the caller gave it, character for
/// character: the load goes on with the journal that has it, hands out its
/// events and ends well exactly if they fold to what its row says.
pub proof fn law_stored_journal_is_found_by_code(
    code: &str,
    id: u128,
    text: String,
    load: Load<JournalRecord>,
    paths: Paths,
    tables: Tables,
    types: spec_fn(Seq<char>) -> Seq<char>,
    r: Reading<JournalRecord>,
    list: Option<&Vec<RawEvent>>,
    result: Option<Result<(), RepositoryError>>,
)
    requires
        call_ensures(encode_id, (id,), text),
        call_ensures(find_journal_by_code, (code,), load),
        comes_of(load, r),
        fulfilled(paths, tables, types, r),
        journal_has_code(paths, tables, text@, code@),
        forall|other: Seq<char>| #[trigger]
            journal_has_code(paths, tables, other, code@) ==> other == text@,
        readable_journal(tables, types, text@),
        r.told.len() > tables.journals[text@].version + 5,
        call_ensures(
            Load::<JournalRecord>::events,
            (&r.loads[tables.journals[text@].version + 4],),
            list,
        ),
        call_ensures(
            Load::<JournalRecord>::result,
            (r.loads[tables.journals[text@].version + 6],),
            result,
        ),
    ensures
        r.needs[0] == LoadRequest::Begin(TransactionBehavior::Deferred),
        read_as_journal(tables, text@, id, r, 2, list, result),
{
    lemma_moved(load, r, 0);
    assert(fulfilled_at(paths, tables, types, r, 0));
    assert(r.loads[0int + 1].state() is Identifying);
    lemma_moved(load, r, 1);
    assert(fulfilled_at(paths, tables, types, r, 1));
    assert(r.needs[1] is Ask);
    lemma_identifier_found(
        paths,
        tables,
        r.needs[1]->Ask_0,
        r.told[1]->Replied_0,
        tables,
        code@,
    );
    let v = tables.journals[text@].version as int;
    assert(r.loads[1int + 1].state() == LoadState::Projecting(id));
    assert(2 + 2 + v == v + 4);
    assert(2 + 4 + v == v + 6);
    lemma_journal_from(paths, tables, types, load, r, 2, id, list, result);
}

/// A code that no journal has is reported as missing, by name and as it was given.
pub proof fn law_unknown_journal_code_is_not_found(
    code: &str,
    load: Load<JournalRecord>,
    paths: Paths,
    tables: Tables,
    types: spec_fn(Seq<char>) -> Seq<char>,
    r: Reading<JournalRecord>,
    result: Option<Result<(), RepositoryError>>,
)
    requires
        call_ensures(find_journal_by_code, (code,), load),
        comes_of(load, r),
        fulfilled(paths, tables, types, r),
        forall|other: Seq<char>| !(#[trigger] journal_has_code(paths, tables, other, code@)),
        r.told.len() > 2,
        call_ensures(Load::<JournalRecord>::result, (r.loads[3],), result),
    ensures
        r.needs[2] is Close,
        result matches Some(Err(error)) && says_missing(
            error,
            EntityKind::Journal,
            "code="@ + debug_form(code@),
        ),
{
    reveal_strlit("code=");
    reveal_strlit("code");
    reveal_strlit("=");
    assert("code"@ + "="@ =~= "code="@);
    lemma_moved(load, r, 0);
    assert(fulfilled_at(paths, tables, types, r, 0));
    assert(r.loads[0int + 1].state() is Identifying);
    lemma_moved(load, r, 1);
    assert(fulfilled_at(paths, tables, types, r, 1));
    assert(r.needs[1] is Ask);
    lemma_identifier_found(
        paths,
        tables,
        r.needs[1]->Ask_0,
        r.told[1]->Replied_0,
        tables,
        code@,
    );
    assert(r.loads[1int + 1].state() is Closing);
    lemma_moved(load, r, 2);
    assert(fulfilled_at(paths, tables, types, r, 2));
}

/// A stored account is found by its code, as the caller gave it, character for
/// character: the load goes on with the account that has it, hands out its
/// events and ends well exactly if they fold to what its row says.
pub proof fn law_stored_account_is_found_by_code(
    code: &str,
    id: u128,
    text: String,
    load: Load<AccountRecord>,
    paths: Paths,
    tables: Tables,
    types: spec_fn(Seq<char>) -> Seq<char>,
    r: Reading<AccountRecord>,
    list: Option<&Vec<RawEvent>>,
    result: Option<Result<(), RepositoryError>>,
)
    requires
        call_ensures(encode_id, (id,), text),
        call_ensures(find_account_by_code, (code,), load),
        comes_of(load, r),
        fulfilled(paths, tables, types, r),
        account_has_code(tables, text@, code@),
        forall|other: Seq<char>| #[trigger]
            account_has_code(tables, other, code@) ==> other == text@,
        readable_account(tables, types, text@),
        r.told.len() > tables.accounts[text@].version + 5,
        call_ensures(
            Load::<AccountRecord>::events,
            (&r.loads[tables.accounts[text@].version + 4],),
            list,
        ),
        call_ensures(
            Load::<AccountRecord>::result,
            (r.loads[tables.accounts[text@].version + 6],),
            result,
        ),
    ensures
        r.needs[0] == LoadRequest::Begin(TransactionBehavior::Deferred),
        read_as_account(tables, text@, id, r, 2, list, result),
{
    lemma_moved(load, r, 0);
    assert(fulfilled_at(paths, tables, types, r, 0));
    assert(r.loads[0int + 1].state() is Identifying);
    lemma_moved(load, r, 1);
    assert(fulfilled_at(paths, tables, types, r, 1));
    assert(r.needs[1] is Ask);
    lemma_identifier_found(
        paths,
        tables,
        r.needs[1]->Ask_0,
        r.told[1]->Replied_0,
        tables,
        code@,
    );
    let v = tables.accounts[text@].version as int;
    assert(r.loads[1int + 1].state() == LoadState::Projecting(id));
    assert(2 + 2 + v == v + 4);
    assert(2 + 4 + v == v + 6);
    lemma_account_from(paths, tables, types, load, r, 2, id, list, result);
}

/// A code that no account has is reported as missing, by name and as it was given.
pub proof fn law_unknown_account_code_is_not_found(
    code: &str,
    load: Load<AccountRecord>,
    paths: Paths,
    tables: Tables,
    types: spec_fn(Seq<char>) -> Seq<char>,
    r: Reading<AccountRecord>,
    result: Option<Result<(), RepositoryError>>,
)
    requires
        call_ensures(find_account_by_code, (code,), load),
        comes_of(load, r),
        fulfilled(paths, tables, types, r),
        forall|other: Seq<char>| !(#[trigger] account_has_code(tables, other, code@)),
        r.told.len() > 2,
        call_ensures(Load::<AccountRecord>::result, (r.loads[3],), result),
    ensures
        r.needs[2] is Close,
        result matches Some(Err(error)) && says_missing(
            error,
            EntityKind::Account,
            "code="@ + debug_form(code@),
        ),
{
    reveal_strlit("code=");
    reveal_strlit("code");
    reveal_strlit("=");
    assert("code"@ + "="@ =~= "code="@);
    lemma_moved(load, r, 0);
    assert(fulfilled_at(paths, tables, types, r, 0));
    assert(r.loads[0int + 1].state() is Identifying);
    lemma_moved(load, r, 1);
    assert(fulfilled_at(paths, tables, types, r, 1));
    assert(r.needs[1] is Ask);
    lemma_identifier_found(
        paths,
        tables,
        r.needs[1]->Ask_0,
        r.told[1]->Replied_0,
        tables,
        code@,
    );
    assert(r.loads[1int + 1].state() is Closing);
    lemma_moved(load, r, 2);
    assert(fulfilled_at(paths, tables, types, r, 2));
}

/// A stored account is found by its external identifier, as the caller gave it, character for
/// character: the load goes on with the account that has it, hands out its
/// events and ends well exactly if they fold to what its row says.
pub proof fn law_stored_account_is_found_by_external_id(
    external_id: &str,
    id: u128,
    text: String,
    load: Load<AccountRecord>,
    paths: Paths,
    tables: Tables,
    types: spec_fn(Seq<char>) -> Seq<char>,
    r: Reading<AccountRecord>,
    list: Option<&Vec<RawEvent>>,
    result: Option<Result<(), RepositoryError>>,
)
    requires
        call_ensures(encode_id, (id,), text),
        call_ensures(find_account_by_external_id, (external_id,), load),
        comes_of(load, r),
        fulfilled(paths, tables, types, r),
        account_has_external_id(paths, tables, text@, external_id@),
        forall|other: Seq<char>| #[trigger]
            account_has_external_id(paths, tables, other, external_id@) ==> other == text@,
        readable_account(tables, types, text@),
        r.told.len() > tables.accounts[text@].version + 5,
        call_ensures(
            Load::<AccountRecord>::events,
            (&r.loads[tables.accounts[text@].version + 4],),
            list,
        ),
        call_ensures(
            Load::<AccountRecord>::result,
            (r.loads[tables.accounts[text@].version + 6],),
            result,
        ),
    ensures
        r.needs[0] == LoadRequest::Begin(TransactionBehavior::Deferred),
        read_as_account(tables, text@, id, r, 2, list, result),
{
    lemma_moved(load, r, 0);
    assert(fulfilled_at(paths, tables, types, r, 0));
    assert(r.loads[0int + 1].state() is Identifying);
    lemma_moved(load, r, 1);
    assert(fulfilled_at(paths, tables, types, r, 1));
    assert(r.needs[1] is Ask);
    lemma_identifier_found(
        paths,
        tables,
        r.needs[1]->Ask_0,
        r.told[1]->Replied_0,
        tables,
        external_id@,
    );
    let v = tables.accounts[text@].version as int;
    assert(r.loads[1int + 1].state() == LoadState::Projecting(id));
    assert(2 + 2 + v == v + 4);
    assert(2 + 4 + v == v + 6);
    lemma_account_from(paths, tables, types, load, r, 2, id, list, result);
}

/// A external identifier that no account has is reported as missing, by name and as it was given.
pub proof fn law_unknown_account_external_id_is_not_found(
    external_id: &str,
    load: Load<AccountRecord>,
    paths: Paths,
    tables: Tables,
    types: spec_fn(Seq<char>) -> Seq<char>,
    r: Reading<AccountRecord>,
    result: Option<Result<(), RepositoryError>>,
)
    requires
        call_ensures(find_account_by_external_id, (external_id,), load),
        comes_of(load, r),
        fulfilled(paths, tables, types, r),
        forall|other: Seq<char>| !(#[trigger] account_has_external_id(paths, tables, other, external_id@)),
        r.told.len() > 2,
        call_ensures(Load::<AccountRecord>::result, (r.loads[3],), result),
    ensures
        r.needs[2] is Close,
        result matches Some(Err(error)) && says_missing(
            error,
            EntityKind::Account,
            "external_id="@ + debug_form(external_id@),
        ),
{
    reveal_strlit("external_id=");
    reveal_strlit("external_id");
    reveal_strlit("=");
    assert("external_id"@ + "="@ =~= "external_id="@);
    lemma_moved(load, r, 0);
    assert(fulfilled_at(paths, tables, types, r, 0));
    assert(r.loads[0int + 1].state() is Identifying);
    lemma_moved(load, r, 1);
    assert(fulfilled_at(paths, tables, types, r, 1));
    assert(r.needs[1] is Ask);
    lemma_identifier_found(
        paths,
        tables,
        r.needs[1]->Ask_0,
        r.told[1]->Replied_0,
        tables,
        external_id@,
    );
    assert(r.loads[1int + 1].state() is Closing);
    lemma_moved(load, r, 2);
    assert(fulfilled_at(paths, tables, types, r, 2));
}

proof fn lemma_stays_failed<R: Entity>(load: Load<R>, r: Reading<R>, i: int, k: int)
    requires
        comes_of(load, r),
        0 <= i <= k <= r.told.len(),
        failed(r.loads[i].state()),
    ensures
        failed(r.loads[k].state()),
    decreases k - i,
{
    if i < k {
        lemma_stays_failed(load, r, i, k - 1);
        let p = k - 1;
        lemma_moved(load, r, p);
    }
}

spec fn failed(state: LoadState) -> bool {
    match state {
        LoadState::Closing(outcome) => outcome is Err,
        LoadState::Closed(result) => result is Err,
        _ => false,
    }
}

/// From place `b` on, where the events of an entity are read and the load ends
/// well in the end.
proof fn lemma_whole_stream<R: Entity>(
    paths: Paths,
    tables: Tables,
    types: spec_fn(Seq<char>) -> Seq<char>,
    load: Load<R>,
    r: Reading<R>,
    b: int,
    id: u128,
    projection: ProjectionFacts,
)
    requires
        comes_of(load, r),
        fulfilled(paths, tables, types, r),
        0 <= b <= r.told.len(),
        r.loads[b].state() == LoadState::Streaming(id, projection),
        r.loads[r.told.len() as int].state() matches LoadState::Closed(Ok(_)),
    ensures
        stream_stored(
            tables,
            types,
            kind_name(R::kind()),
            hyphenated(id),
            projection.version as int,
        ),
        r.told.len() > b + 1 + projection.version,
        r.loads[b + 1 + projection.version].state() is Folding,
        r.loads[b + 1 + projection.version].state()->Folding_0 == id,
        r.loads[b + 1 + projection.version].state()->Folding_1 == projection,
{
    let last = r.told.len() as int;
    let kind = kind_name(R::kind());
    let entity = hyphenated(id);
    let v = projection.version as int;
    lemma_moved(load, r, b);
    assert(fulfilled_at(paths, tables, types, r, b));
    let reply = r.told[b]->Replied_0;
    lemma_events_found(paths, tables, r.needs[b]->Ask_0, reply, tables, kind, entity);
    if events_read(reply, R::kind(), entity, projection.version) is Err {
        lemma_stays_failed(load, r, b + 1, last);
    }
    let rows = reply->Ok_0.rows@;
    let numbers = choose|numbers: Seq<i64>| lists_events(tables, kind, entity, rows, numbers);
    let events = stream_of(rows, R::kind(), entity);
    assert forall|i: int| 0 <= i < rows.len() implies numbers[i] == i + 1 && i + 1 <= i32::MAX
        && json_value(event_at(tables, kind, entity, #[trigger] numbers[i]).payload) is Ok
        && rfc3339_instant(event_at(tables, kind, entity, numbers[i]).recorded_at) is Ok
        && events[i].event_type == event_at(tables, kind, entity, numbers[i]).event_type
        && events[i].payload == event_at(tables, kind, entity, numbers[i]).payload by {
        lemma_unbroken(rows, R::kind(), entity, i);
        assert(shows_event(rows[i], numbers[i], event_at(tables, kind, entity, numbers[i])));
    }
    assert forall|sequence: i64| #[trigger] has_event(tables, kind, entity, sequence) implies 1
        <= sequence <= v by {
        assert(numbers.contains(sequence));
        let j = choose|j: int| 0 <= j < numbers.len() && numbers[j] == sequence;
        assert(numbers[j] == j + 1);
    }
    assert forall|sequence: i64| 1 <= sequence <= v implies #[trigger] has_event(
        tables,
        kind,
        entity,
        sequence,
    ) by {
        let j = sequence - 1;
        assert(numbers[j] == j + 1);
    }
    if v > 0 {
        assert(numbers[v - 1] == v);
    }
    assert(r.loads[b + 1].state() == decoding(id, projection, events, 0));
    lemma_types_told(paths, tables, types, load, r, id, projection, events, b + 1, v);
    assert forall|sequence: i64| 1 <= sequence <= v implies {
        let event = #[trigger] event_at(tables, kind, entity, sequence);
        &&& json_value(event.payload) is Ok
        &&& types(event.payload) == event.event_type
        &&& rfc3339_instant(event.recorded_at) is Ok
    } by {
        let j = sequence - 1;
        assert(numbers[j] == j + 1);
        assert(types(events[j].payload) == events[j].event_type);
    }
}

proof fn lemma_unbroken(rows: Seq<Row>, entity_kind: EntityKind, id: Seq<char>, i: int)
    requires
        0 <= i < rows.len(),
        !exists|j: int| first_broken(rows, entity_kind, id, j),
    ensures
        event_of(rows[i], entity_kind, id, i + 1) is Ok,
    decreases i,
{
    assert forall|k: int| 0 <= k < i implies event_of(
        #[trigger] rows[k],
        entity_kind,
        id,
        k + 1,
    ) is Ok by {
        lemma_unbroken(rows, entity_kind, id, k);
    }
    assert(!first_broken(rows, entity_kind, id, i));
}

proof fn lemma_types_told<R: Entity>(
    paths: Paths,
    tables: Tables,
    types: spec_fn(Seq<char>) -> Seq<char>,
    load: Load<R>,
    r: Reading<R>,
    id: u128,
    projection: ProjectionFacts,
    events: Seq<EventFacts>,
    from: int,
    n: int,
)
    requires
        comes_of(load, r),
        fulfilled(paths, tables, types, r),
        0 <= from <= r.told.len(),
        r.loads[from].state() == decoding(id, projection, events, 0),
        r.loads[r.told.len() as int].state() matches LoadState::Closed(Ok(_)),
        0 <= n <= events.len(),
    ensures
        r.told.len() > from + n,
        r.loads[from + n].state() == decoding(id, projection, events, n),
        forall|j: int|
            0 <= j < n ==> types((#[trigger] events[j]).payload) == events[j].event_type,
    decreases n,
{
    let last = r.told.len() as int;
    if n > 0 {
        let k = n - 1;
        lemma_types_told(paths, tables, types, load, r, id, projection, events, from, k);
        let i = from + k;
        lemma_moved(load, r, i);
        assert(fulfilled_at(paths, tables, types, r, i));
        assert(r.needs[i] is Decode);
        if types(events[k].payload) != events[k].event_type {
            lemma_stays_failed(load, r, i + 1, last);
        }
    }
}

/// A journal is read without complaint only if everything about it is whole: its
/// row is there, its version counts its events, which are numbered from 1 without
/// a gap and of the types that their payloads decode to, and they fold to what
/// the row says. Everything else fails closed.
pub proof fn law_accepted_journal_is_whole(
    id: JournalId,
    text: String,
    load: Load<JournalRecord>,
    paths: Paths,
    tables: Tables,
    types: spec_fn(Seq<char>) -> Seq<char>,
    r: Reading<JournalRecord>,
    result: Option<Result<(), RepositoryError>>,
)
    requires
        call_ensures(encode_id, (id.0,), text),
        call_ensures(find_journal, (id,), load),
        comes_of(load, r),
        fulfilled(paths, tables, types, r),
        call_ensures(Load::<JournalRecord>::result, (r.loads[r.told.len() as int],), result),
        result matches Some(Ok(_)),
    ensures
        readable_journal(tables, types, text@),
        r.told[tables.journals[text@].version + 3] matches Told::Folded(Ok(Some(found)))
            && journal_agrees(tables.journals[text@], found),
{
    let last = r.told.len() as int;
    let kind = kind_name(EntityKind::Journal);
    assert(r.loads[last].state() matches LoadState::Closed(Ok(_)));
    assert(last > 0);
    lemma_moved(load, r, 0);
    assert(fulfilled_at(paths, tables, types, r, 0));
    assert(r.loads[0int + 1].state() == LoadState::Projecting(id.0));
    assert(last > 1);
    lemma_moved(load, r, 1);
    assert(fulfilled_at(paths, tables, types, r, 1));
    let first = r.told[1]->Replied_0;
    lemma_projection_found(
        paths,
        tables,
        r.needs[1]->Ask_0,
        first,
        tables,
        hyphenated(id.0),
    );
    if projection_read(first, EntityKind::Journal, text@) is Err {
        lemma_stays_failed(load, r, 1int + 1, last);
    }
    let row = tables.journals[text@];
    let projection = journal_facts(row);
    assert(projection_read(first, EntityKind::Journal, text@) == Ok::<
        ProjectionFacts,
        RepositoryFailure,
    >(projection));
    lemma_whole_stream(paths, tables, types, load, r, 2, id.0, projection);
    let v = projection.version as int;
    let f = 3 + v;
    lemma_moved(load, r, f);
    assert(fulfilled_at(paths, tables, types, r, f));
    if let Told::Folded(Ok(Some(entity))) = r.told[f] {
        assert(journal_agrees(row, entity) <==> <JournalRecord as Entity>::agreement(
            entity,
            projection,
        ) is Ok);
        if <JournalRecord as Entity>::agreement(entity, projection) is Err {
            lemma_stays_failed(load, r, f + 1, last);
        }
    } else {
        lemma_stays_failed(load, r, f + 1, last);
    }
}

/// A account is read without complaint only if everything about it is whole: its
/// row is there, its version counts its events, which are numbered from 1 without
/// a gap and of the types that their payloads decode to, and they fold to what
/// the row says. Everything else fails closed.
pub proof fn law_accepted_account_is_whole(
    id: AccountId,
    text: String,
    load: Load<AccountRecord>,
    paths: Paths,
    tables: Tables,
    types: spec_fn(Seq<char>) -> Seq<char>,
    r: Reading<AccountRecord>,
    result: Option<Result<(), RepositoryError>>,
)
    requires
        call_ensures(encode_id, (id.0,), text),
        call_ensures(find_account, (id,), load),
        comes_of(load, r),
        fulfilled(paths, tables, types, r),
        call_ensures(Load::<AccountRecord>::result, (r.loads[r.told.len() as int],), result),
        result matches Some(Ok(_)),
    ensures
        readable_account(tables, types, text@),
        r.told[tables.accounts[text@].version + 3] matches Told::Folded(Ok(Some(found)))
            && account_agrees(tables.accounts[text@], found),
{
    let last = r.told.len() as int;
    let kind = kind_name(EntityKind::Account);
    assert(r.loads[last].state() matches LoadState::Closed(Ok(_)));
    assert(last > 0);
    lemma_moved(load, r, 0);
    assert(fulfilled_at(paths, tables, types, r, 0));
    assert(r.loads[0int + 1].state() == LoadState::Projecting(id.0));
    assert(last > 1);
    lemma_moved(load, r, 1);
    assert(fulfilled_at(paths, tables, types, r, 1));
    let first = r.told[1]->Replied_0;
    lemma_projection_found(
        paths,
        tables,
        r.needs[1]->Ask_0,
        first,
        tables,
        hyphenated(id.0),
    );
    if projection_read(first, EntityKind::Account, text@) is Err {
        lemma_stays_failed(load, r, 1int + 1, last);
    }
    let row = tables.accounts[text@];
    let projection = account_facts(row);
    assert(projection_read(first, EntityKind::Account, text@) == Ok::<
        ProjectionFacts,
        RepositoryFailure,
    >(projection));
    lemma_whole_stream(paths, tables, types, load, r, 2, id.0, projection);
    let v = projection.version as int;
    let f = 3 + v;
    lemma_moved(load, r, f);
    assert(fulfilled_at(paths, tables, types, r, f));
    if let Told::Folded(Ok(Some(entity))) = r.told[f] {
        assert(account_agrees(row, entity) <==> <AccountRecord as Entity>::agreement(
            entity,
            projection,
        ) is Ok);
        if <AccountRecord as Entity>::agreement(entity, projection) is Err {
            lemma_stays_failed(load, r, f + 1, last);
        }
    } else {
        lemma_stays_failed(load, r, f + 1, last);
    }
}

} // verus!
