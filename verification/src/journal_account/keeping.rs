//! What becomes of journals and accounts in the tables when they are created,
//! changed and read.
use crate::journal_account::answers::{
    lemma_account_inserted, lemma_account_updated, lemma_event_appended, lemma_identity_found,
    lemma_journal_inserted, lemma_journal_updated, lemma_version_found,
};
use crate::journal_account::codec::{encode_id, event_id, status_text};
use crate::journal_account::error::{kind_name, EntityKind, RepositoryError, RepositoryFailure};
use crate::journal_account::expect::{repository_verdict, Expectation, RepositoryCheck};
use crate::journal_account::finish::{finish_change, finish_write, written};
use crate::journal_account::persist::{persist_account, persist_journal, Change};
use crate::journal_account::record::{
    texts_of, AccountRecord, Changed, Draft, FirstEvent, JournalRecord,
};
use crate::journal_account::statements::{appends_event, appends_events, places};
use crate::journal_account::tables::{
    account_code_taken, account_has_code, answers, appended, event_at, event_id_taken, event_stored,
    external_id_taken, has_event, journal_code_taken, kept_along, names_event,
    no_events_behind, serves, AccountRow, EventKey, EventRow, JournalRow, Paths, Tables,
};
use crate::journal_account::write::{create_account, create_journal, time_text, Creation};
use crate::letters::lemma_digits;
use crate::primitives::Status;
use crate::storage::engine::{Reply, TransactionBehavior};
use crate::storage::laws::{
    accepts, asks, cannot_refuse, irrefutable_up_to, is_history, law_accepted_steps_go_on,
    law_closed_scope_stays, law_committed_ran_every_step, law_first_refusal_is_the_outcome,
    law_refusal_rolls_back, law_refused_reply_is_the_last, law_undone_scope_leaves_no_trace,
    restores, rolled_back_at, silent, takes, transactional, History,
};
use crate::storage::play::{column_number, fails, lemma_history, plays, smooth};
use crate::storage::scope::{follows, Check, End, Ending, Phase, Request, Scope, Step};
use crate::text::{digits, has_part, lower, lower_text, stands_at};
use crate::time::Timestamp;
use vstd::prelude::*;
use vstd::string::*;

verus! {

proof fn lemma_transactional<C: Check>(paths: Paths, h: History<C>, held: Seq<Tables>)
    requires
        kept_along(paths, h, held),
        h.requests.len() == h.replies.len() + 1,
    ensures
        transactional(h, held),
{
    assert forall|i: int| 0 <= i < h.replies.len() implies #[trigger] restores(
        h.requests[i],
        h.replies[i],
        held[0],
        held[i],
        held[i + 1],
    ) by {
        assert(serves(paths, held[0], held[i], h.requests[i], h.replies[i], held[i + 1]));
    }
}

proof fn lemma_verdict(check: RepositoryCheck, reply: Reply)
    ensures
        takes(check, reply) ==> repository_verdict(check@, reply) is Ok,
        repository_verdict(check@, reply) is Ok ==> cannot_refuse(check, reply),
        repository_verdict(check@, reply) is Ok ==> reply is Ok,
{
}

/// Whether a step ran on an engine that held `tables`, was accepted, and left
/// `after`.
spec fn ran(
    paths: Paths,
    step: Step<RepositoryCheck>,
    reply: Reply,
    tables: Tables,
    after: Tables,
) -> bool {
    &&& step matches Step::Run { statement, check }
    &&& repository_verdict(check@, reply) is Ok
    &&& answers(paths, tables, statement, reply, after)
}

proof fn lemma_committed(
    paths: Paths,
    steps: Seq<Step<RepositoryCheck>>,
    h: History<RepositoryCheck>,
    held: Seq<Tables>,
)
    requires
        is_history(End::Commit, steps, h),
        kept_along(paths, h, held),
        h.phases[h.replies.len() as int] == Phase::<RepositoryCheck>::Closed(Ending::Committed),
    ensures
        h.replies.len() >= steps.len() + 2,
        held[1] == held[0],
        forall|k: int|
            0 <= k < steps.len() ==> ran(
                paths,
                #[trigger] steps[k],
                h.replies[k + 1],
                held[k + 1],
                held[k + 2],
            ),
        held.last() == held[steps.len() as int + 1],
{
    let last = h.replies.len() as int;
    let n = steps.len() as int;
    law_committed_ran_every_step(End::Commit, steps, h, last);
    assert(serves(paths, held[0], held[0], h.requests[0], h.replies[0], held[0int + 1]));
    assert forall|k: int| 0 <= k < n implies ran(
        paths,
        #[trigger] steps[k],
        h.replies[k + 1],
        held[k + 1],
        held[k + 2],
    ) by {
        assert(asks(steps[(k + 1) - 1], h.requests[k + 1]));
        assert(accepts(steps[(k + 1) - 1], h.replies[k + 1]));
        let q = k + 1;
        assert(serves(paths, held[0], held[q], h.requests[q], h.replies[q], held[q + 1]));
        if let Step::Run { statement, check } = steps[k] {
            lemma_verdict(check, h.replies[q]);
        }
    }
    let c = n + 1;
    assert(serves(paths, held[0], held[c], h.requests[c], h.replies[c], held[c + 1]));
    lemma_still(paths, h, held, c, last);
}

proof fn lemma_still<C: Check>(
    paths: Paths,
    h: History<C>,
    held: Seq<Tables>,
    from: int,
    to: int,
)
    requires
        kept_along(paths, h, held),
        h.requests.len() == h.replies.len() + 1,
        0 <= from < to <= h.replies.len(),
        silent(h, from, to),
    ensures
        held[to] == held[from + 1],
    decreases to,
{
    if from + 1 < to {
        lemma_still(paths, h, held, from, to - 1);
        let p = to - 1;
        assert(serves(paths, held[0], held[p], h.requests[p], h.replies[p], held[p + 1]));
    }
}

proof fn lemma_event_name(entity_kind: EntityKind, id: Seq<char>, sequence: int) -> (written: Seq<
    char,
>)
    requires
        sequence >= 0,
    ensures
        names_event(
            event_id(entity_kind, id, sequence),
            kind_name(entity_kind),
            id,
            sequence,
            written,
        ),
{
    lemma_digits(sequence as nat);
    digits(sequence as nat)
}

proof fn lemma_one_more(
    tables: Tables,
    before: Tables,
    after: Tables,
    entity_kind: EntityKind,
    id: Seq<char>,
    offset: u32,
    event_types: Seq<String>,
    payloads: Seq<String>,
    stamp: Seq<char>,
)
    requires
        payloads.len() > 0,
        event_types.len() == payloads.len(),
        offset + payloads.len() <= u32::MAX,
        appended(
            tables,
            before,
            kind_name(entity_kind),
            id,
            offset as int,
            event_types.drop_last(),
            payloads.drop_last(),
            stamp,
        ),
        !has_event(before, kind_name(entity_kind), id, (offset + payloads.len()) as i64),
        after.events == before.events.insert(
            EventKey {
                kind: kind_name(entity_kind),
                entity: id,
                sequence: (offset + payloads.len()) as i64,
            },
            EventRow {
                event_id: event_id(entity_kind, id, offset + payloads.len()),
                event_type: event_types.last()@,
                payload: payloads.last()@,
                recorded_at: stamp,
            },
        ),
    ensures
        appended(
            tables,
            after,
            kind_name(entity_kind),
            id,
            offset as int,
            event_types,
            payloads,
            stamp,
        ),
{
    let kind = kind_name(entity_kind);
    let m = payloads.len() as int;
    let k = m - 1;
    let sequence = offset + m;
    let written = lemma_event_name(entity_kind, id, sequence);
    let key = EventKey { kind, entity: id, sequence: sequence as i64 };
    assert forall|j: int| 0 <= j < m implies event_stored(
        after,
        kind,
        id,
        offset + j + 1,
        event_types[j]@,
        #[trigger] payloads[j]@,
        stamp,
    ) by {
        let place = offset + j + 1;
        let here = EventKey { kind, entity: id, sequence: place as i64 };
        if j < k {
            assert(here.sequence < key.sequence);
            assert(after.events[here] == before.events[here]);
            assert(payloads.drop_last()[j] == payloads[j]);
            assert(event_types.drop_last()[j] == event_types[j]);
            assert(event_stored(
                before,
                kind,
                id,
                offset + j + 1,
                event_types.drop_last()[j]@,
                payloads.drop_last()[j]@,
                stamp,
            ));
            let earlier = choose|earlier: Seq<char>|
                names_event(
                    event_at(before, kind, id, here.sequence).event_id,
                    kind,
                    id,
                    place,
                    earlier,
                );
            assert(names_event(
                event_at(after, kind, id, here.sequence).event_id,
                kind,
                id,
                place,
                earlier,
            ));
        } else {
            assert(names_event(
                event_at(after, kind, id, here.sequence).event_id,
                kind,
                id,
                place,
                written,
            ));
        }
    }
    assert forall|q: i64| offset < q <= offset + m implies !(#[trigger] has_event(
        tables,
        kind,
        id,
        q,
    )) by {
        if q == sequence {
            assert(!before.events.dom().contains(key));
        }
    }
    assert forall|other: EventKey|
        !(other.kind == kind && other.entity == id && offset < other.sequence <= offset + m) implies {
        &&& #[trigger] after.events.dom().contains(other) <==> tables.events.dom().contains(other)
        &&& tables.events.dom().contains(other) ==> after.events[other] == tables.events[other]
    } by {
        assert(other != key);
        assert(before.events.dom().contains(other) <==> tables.events.dom().contains(other));
    }
}

proof fn lemma_appended(
    paths: Paths,
    tail: Seq<Step<RepositoryCheck>>,
    replies: Seq<Reply>,
    held: Seq<Tables>,
    entity_kind: EntityKind,
    id: Seq<char>,
    offset: u32,
    event_types: Seq<String>,
    payloads: Seq<String>,
    stamp: Seq<char>,
    m: int,
)
    requires
        appends_events(
            tail,
            entity_kind,
            id,
            offset,
            texts_of(event_types),
            texts_of(payloads),
            stamp,
        ),
        held.len() > tail.len(),
        replies.len() >= tail.len(),
        forall|k: int|
            0 <= k < tail.len() ==> ran(
                paths,
                #[trigger] tail[k],
                replies[k],
                held[k],
                held[k + 1],
            ),
        0 <= m <= payloads.len(),
    ensures
        tail.len() == payloads.len(),
        event_types.len() == payloads.len(),
        held[m].journals == held[0].journals,
        held[m].accounts == held[0].accounts,
        appended(
            held[0],
            held[m],
            kind_name(entity_kind),
            id,
            offset as int,
            event_types.take(m),
            payloads.take(m),
            stamp,
        ),
    decreases m,
{
    if event_types.len() != payloads.len() {
        assert(tail[0] is Refuse);
    }
    if places(offset, payloads.len()) < payloads.len() {
        assert(tail[places(offset, payloads.len())] is Refuse);
    }
    if m > 0 {
        let k = m - 1;
        lemma_appended(
            paths,
            tail,
            replies,
            held,
            entity_kind,
            id,
            offset,
            event_types,
            payloads,
            stamp,
            k,
        );
        let sequence = offset + k + 1;
        assert(appends_event(
            tail[k],
            entity_kind,
            id,
            sequence,
            texts_of(event_types)[k],
            texts_of(payloads)[k],
            stamp,
        ));
        assert(ran(paths, tail[k], replies[k], held[k], held[k + 1]));
        lemma_event_appended(
            paths,
            held[k],
            tail[k]->statement,
            replies[k],
            held[m],
            event_id(entity_kind, id, sequence),
            kind_name(entity_kind),
            id,
            sequence as i64,
            event_types[k]@,
            payloads[k]@,
            stamp,
        );
        assert(event_types.take(m).drop_last() =~= event_types.take(k));
        assert(payloads.take(m).drop_last() =~= payloads.take(k));
        lemma_one_more(
            held[0],
            held[k],
            held[m],
            entity_kind,
            id,
            offset,
            event_types.take(m),
            payloads.take(m),
            stamp,
        );
    }
}

/// The text under which a status is stored.
pub open spec fn status_column(status: Status) -> Seq<char> {
    if status is Active {
        "active"@
    } else {
        "locked"@
    }
}

/// A change of a journal that reports version `version` has found the journal at
/// the version it was read at and no other journal with its code, and has stored
/// its new values and, right behind the stored ones, its new events. Without new
/// events it has stored nothing.
pub proof fn law_persisted_journal_is_stored(
    journal: Changed<JournalRecord>,
    events: Vec<String>,
    expected: u32,
    at: Timestamp,
    id: String,
    stamp: String,
    change: Change,
    begun: (Scope<RepositoryCheck>, Request),
    next: u32,
    paths: Paths,
    h: History<RepositoryCheck>,
    held: Seq<Tables>,
    ending: Ending<RepositoryError>,
    version: u32,
)
    requires
        call_ensures(encode_id, (journal.id,), id),
        call_ensures(Timestamp::to_rfc3339, (&at,), stamp),
        journal.record.id.0 == journal.id,
        journal.encoded.event_payloads == Ok::<Vec<String>, String>(events),
        call_ensures(persist_journal, (journal, expected, at), Ok(change)),
        call_ensures(Change::begin, (change,), begun),
        call_ensures(Change::next_version, (&change,), next),
        plays(begun, h),
        kept_along(paths, h, held),
        h.phases[h.replies.len() as int] == Phase::<RepositoryCheck>::Closed(ending),
        call_ensures(finish_change, (next, ending), Ok(version)),
    ensures
        version == expected + events@.len(),
        held[0].journals.dom().contains(id@),
        held[0].journals[id@].version == expected,
        events@.len() == 0 ==> held.last() == held[0],
        events@.len() > 0 ==> {
            &&& journal.record.code matches Some(code) ==> !journal_code_taken(
                paths,
                held[0],
                id@,
                code@,
            )
            &&& journal.encoded.payload matches Ok(payload)
            &&& held.last().journals == held[0].journals.insert(
                id@,
                JournalRow {
                    version: version as i64,
                    name: journal.record.name@,
                    status: status_column(journal.record.status),
                    payload: payload@,
                    created_at: held[0].journals[id@].created_at,
                    modified_at: stamp@,
                },
            )
            &&& held.last().accounts == held[0].accounts
            &&& appended(
                held[0],
                held.last(),
                "journal"@,
                id@,
                expected as int,
                journal.encoded.event_types@,
                events@,
                stamp@,
            )
        },
{
    let steps = change.steps();
    lemma_history(begun, steps, h);
    lemma_written(steps, h, ending);
    lemma_committed(paths, steps, h, held);
    let n = steps.len() as int;
    assert(ran(paths, steps[0], h.replies[0int + 1], held[0int + 1], held[0int + 2]));
    lemma_version_found(paths, held[1], steps[0]->statement, h.replies[1], held[2], id@);
    assert(held[0].journals.dom().contains(id@));
    lemma_version_read(
        h.replies[1],
        EntityKind::Journal,
        id@,
        expected,
        held[0].journals[id@].version,
    );
    if events@.len() > 0 {
        let facts = journal.record@;
        let k: int = if facts.code is Some {
            2
        } else {
            1
        };
        if let Some(code) = journal.record.code {
            assert(ran(paths, steps[1], h.replies[1int + 1], held[1int + 1], held[1int + 2]));
            lemma_identity_found(
                paths,
                held[2],
                steps[1]->statement,
                h.replies[2],
                held[3],
                id@,
                code@,
            );
        }
        assert(held[k + 1] == held[0]);
        let middle = steps.subrange(k, n - 1);
        let tables = held.subrange(k + 1, n + 1);
        let replies = h.replies.subrange(k + 1, n + 1);
        assert forall|j: int| 0 <= j < middle.len() implies ran(
            paths,
            #[trigger] middle[j],
            replies[j],
            tables[j],
            tables[j + 1],
        ) by {
            assert(middle[j] == steps[k + j]);
            let q = k + j;
            assert(ran(paths, steps[q], h.replies[q + 1], held[q + 1], held[q + 2]));
        }
        let m = events@.len() as int;
        lemma_appended(
            paths,
            middle,
            replies,
            tables,
            EntityKind::Journal,
            id@,
            expected,
            journal.encoded.event_types@,
            events@,
            stamp@,
            m,
        );
        assert(events@.take(m) =~= events@);
        assert(journal.encoded.event_types@.take(m) =~= journal.encoded.event_types@);
        assert(tables[m] == held[n]);
        let q = n - 1;
        assert(ran(paths, steps[q], h.replies[q + 1], held[q + 1], held[q + 2]));
        let payload = journal.encoded.payload->Ok_0;
        lemma_journal_updated(
            paths,
            held[n],
            steps[q]->statement,
            h.replies[n],
            held[n + 1],
            next as i64,
            journal.record.name@,
            status_text(journal.record.status),
            payload@,
            stamp@,
            id@,
            expected as i64,
        );
    }
}

/// A change of an account that reports version `version` has found the account at
/// the version it was read at and no other account with its code or its external
/// identifier, and has stored its new values and, right behind the stored ones,
/// its new events. Without new events it has stored nothing.
pub proof fn law_persisted_account_is_stored(
    account: Changed<AccountRecord>,
    events: Vec<String>,
    expected: u32,
    at: Timestamp,
    id: String,
    stamp: String,
    change: Change,
    begun: (Scope<RepositoryCheck>, Request),
    next: u32,
    paths: Paths,
    h: History<RepositoryCheck>,
    held: Seq<Tables>,
    ending: Ending<RepositoryError>,
    version: u32,
)
    requires
        call_ensures(encode_id, (account.id,), id),
        call_ensures(Timestamp::to_rfc3339, (&at,), stamp),
        account.record.id.0 == account.id,
        account.encoded.event_payloads == Ok::<Vec<String>, String>(events),
        call_ensures(persist_account, (account, expected, at), Ok(change)),
        call_ensures(Change::begin, (change,), begun),
        call_ensures(Change::next_version, (&change,), next),
        plays(begun, h),
        kept_along(paths, h, held),
        h.phases[h.replies.len() as int] == Phase::<RepositoryCheck>::Closed(ending),
        call_ensures(finish_change, (next, ending), Ok(version)),
    ensures
        !account.record.is_account_set,
        version == expected + events@.len(),
        held[0].accounts.dom().contains(id@),
        held[0].accounts[id@].version == expected,
        events@.len() == 0 ==> held.last() == held[0],
        events@.len() > 0 ==> {
            &&& !account_code_taken(held[0], id@, account.record.code@)
            &&& account.record.external_id matches Some(external_id) ==> !external_id_taken(
                paths,
                held[0],
                id@,
                external_id@,
            )
            &&& account.encoded.payload matches Ok(payload)
            &&& held.last().accounts == held[0].accounts.insert(
                id@,
                AccountRow {
                    version: version as i64,
                    code: account.record.code@,
                    name: account.record.name@,
                    status: status_column(account.record.status),
                    payload: payload@,
                    created_at: held[0].accounts[id@].created_at,
                    modified_at: stamp@,
                },
            )
            &&& held.last().journals == held[0].journals
            &&& appended(
                held[0],
                held.last(),
                "account"@,
                id@,
                expected as int,
                account.encoded.event_types@,
                events@,
                stamp@,
            )
        },
{
    let steps = change.steps();
    lemma_history(begun, steps, h);
    lemma_written(steps, h, ending);
    lemma_committed(paths, steps, h, held);
    let n = steps.len() as int;
    assert(ran(paths, steps[0], h.replies[0int + 1], held[0int + 1], held[0int + 2]));
    lemma_version_found(paths, held[1], steps[0]->statement, h.replies[1], held[2], id@);
    assert(held[0].accounts.dom().contains(id@));
    lemma_version_read(
        h.replies[1],
        EntityKind::Account,
        id@,
        expected,
        held[0].accounts[id@].version,
    );
    if events@.len() > 0 {
        let facts = account.record@;
        let k: int = if facts.external_id is Some {
            2
        } else {
            1
        };
        if let Some(external_id) = account.record.external_id {
            assert(ran(paths, steps[1], h.replies[1int + 1], held[1int + 1], held[1int + 2]));
            lemma_identity_found(
                paths,
                held[2],
                steps[1]->statement,
                h.replies[2],
                held[3],
                id@,
                external_id@,
            );
        }
        assert(held[k + 1] == held[0]);
        let middle = steps.subrange(k, n - 1);
        let tables = held.subrange(k + 1, n + 1);
        let replies = h.replies.subrange(k + 1, n + 1);
        assert forall|j: int| 0 <= j < middle.len() implies ran(
            paths,
            #[trigger] middle[j],
            replies[j],
            tables[j],
            tables[j + 1],
        ) by {
            assert(middle[j] == steps[k + j]);
            let q = k + j;
            assert(ran(paths, steps[q], h.replies[q + 1], held[q + 1], held[q + 2]));
        }
        let m = events@.len() as int;
        lemma_appended(
            paths,
            middle,
            replies,
            tables,
            EntityKind::Account,
            id@,
            expected,
            account.encoded.event_types@,
            events@,
            stamp@,
            m,
        );
        assert(events@.take(m) =~= events@);
        assert(account.encoded.event_types@.take(m) =~= account.encoded.event_types@);
        assert(tables[m] == held[n]);
        let q = n - 1;
        assert(ran(paths, steps[q], h.replies[q + 1], held[q + 1], held[q + 2]));
        let payload = account.encoded.payload->Ok_0;
        lemma_account_updated(
            paths,
            held[n],
            steps[q]->statement,
            h.replies[n],
            held[n + 1],
            next as i64,
            account.record.code@,
            account.record.name@,
            status_text(account.record.status),
            payload@,
            stamp@,
            id@,
            expected as i64,
        );
        lemma_same_codes(held[0], held[n], id@, account.record.code@);
    }
}

proof fn lemma_same_codes(tables: Tables, after: Tables, id: Seq<char>, code: Seq<char>)
    requires
        tables.accounts == after.accounts,
    ensures
        account_code_taken(tables, id, code) <==> account_code_taken(after, id, code),
{
    assert forall|other: Seq<char>| #[trigger]
        account_has_code(tables, other, code) == account_has_code(after, other, code) by {}
    if account_code_taken(tables, id, code) {
        let other = choose|other: Seq<char>|
            other != id && #[trigger] account_has_code(tables, other, code);
        assert(account_has_code(after, other, code));
    }
    if account_code_taken(after, id, code) {
        let other = choose|other: Seq<char>|
            other != id && #[trigger] account_has_code(after, other, code);
        assert(account_has_code(tables, other, code));
    }
}

/// A journal whose creation is reported as done was new, no other journal had its
/// code, and it is stored at version 1 with its values and its events from the
/// first on.
pub proof fn law_created_journal_is_stored(
    draft: Draft<JournalRecord>,
    record: JournalRecord,
    events: Vec<String>,
    at: Timestamp,
    id: String,
    stamp: String,
    creation: Creation,
    begun: (Scope<RepositoryCheck>, Request),
    paths: Paths,
    h: History<RepositoryCheck>,
    held: Seq<Tables>,
    ending: Ending<RepositoryError>,
)
    requires
        draft.first == Some(FirstEvent::Initialized(record)),
        draft.encoded.event_payloads == Ok::<Vec<String>, String>(events),
        call_ensures(encode_id, (record.id.0,), id),
        call_ensures(Timestamp::to_rfc3339, (&at,), stamp),
        call_ensures(create_journal, (draft, at), Ok(creation)),
        call_ensures(Creation::begin, (creation, Ok(())), Ok(begun)),
        plays(begun, h),
        kept_along(paths, h, held),
        h.phases[h.replies.len() as int] == Phase::<RepositoryCheck>::Closed(ending),
        call_ensures(finish_write, (ending,), Ok(())),
    ensures
        !held[0].journals.dom().contains(id@),
        record.code matches Some(code) ==> !journal_code_taken(paths, held[0], id@, code@),
        draft.encoded.payload matches Ok(payload) && held.last().journals
            == held[0].journals.insert(
            id@,
            JournalRow {
                version: 1,
                name: record.name@,
                status: status_column(record.status),
                payload: payload@,
                created_at: stamp@,
                modified_at: stamp@,
            },
        ),
        held.last().accounts == held[0].accounts,
        appended(
            held[0],
            held.last(),
            "journal"@,
            id@,
            0,
            draft.encoded.event_types@,
            events@,
            stamp@,
        ),
{
    let steps = creation.steps();
    lemma_history(begun, steps, h);
    lemma_written(steps, h, ending);
    lemma_committed(paths, steps, h, held);
    let n = steps.len() as int;
    let k: int = if record.code is Some {
        1
    } else {
        0
    };
    if let Some(code) = record.code {
        assert(ran(paths, steps[0], h.replies[0int + 1], held[0int + 1], held[0int + 2]));
        lemma_identity_found(
            paths,
            held[1],
            steps[0]->statement,
            h.replies[1],
            held[2],
            id@,
            code@,
        );
    }
    assert(held[k + 1] == held[0]);
    assert(ran(paths, steps[k], h.replies[k + 1], held[k + 1], held[k + 2]));
    let payload = draft.encoded.payload->Ok_0;
    lemma_journal_inserted(
        paths,
        held[k + 1],
        steps[k]->statement,
        h.replies[k + 1],
        held[k + 2],
        id@,
        record.name@,
        status_text(record.status),
        payload@,
        stamp@,
    );
    lemma_created_events(
        paths,
        steps,
        h,
        held,
        k + 1,
        EntityKind::Journal,
        id@,
        draft.encoded.event_types@,
        events@,
        stamp@,
    );
    lemma_same_events(
        held[0],
        held[k + 2],
        held.last(),
        "journal"@,
        id@,
        draft.encoded.event_types@,
        events@,
        stamp@,
    );
}

proof fn lemma_same_events(
    tables: Tables,
    other: Tables,
    after: Tables,
    kind: Seq<char>,
    id: Seq<char>,
    event_types: Seq<String>,
    payloads: Seq<String>,
    stamp: Seq<char>,
)
    requires
        tables.events == other.events,
        appended(other, after, kind, id, 0, event_types, payloads, stamp),
    ensures
        appended(tables, after, kind, id, 0, event_types, payloads, stamp),
{
    assert forall|sequence: i64| 0 < sequence <= payloads.len() implies !(#[trigger] has_event(
        tables,
        kind,
        id,
        sequence,
    )) by {
        assert(!has_event(other, kind, id, sequence));
    }
}

proof fn lemma_created_events(
    paths: Paths,
    steps: Seq<Step<RepositoryCheck>>,
    h: History<RepositoryCheck>,
    held: Seq<Tables>,
    base: int,
    entity_kind: EntityKind,
    id: Seq<char>,
    event_types: Seq<String>,
    payloads: Seq<String>,
    stamp: Seq<char>,
)
    requires
        0 <= base <= steps.len(),
        h.replies.len() >= steps.len() + 2,
        held.len() == h.replies.len() + 1,
        appends_events(
            steps.skip(base),
            entity_kind,
            id,
            0,
            texts_of(event_types),
            texts_of(payloads),
            stamp,
        ),
        forall|k: int|
            0 <= k < steps.len() ==> ran(
                paths,
                #[trigger] steps[k],
                h.replies[k + 1],
                held[k + 1],
                held[k + 2],
            ),
    ensures
        held[steps.len() as int + 1].journals == held[base + 1].journals,
        held[steps.len() as int + 1].accounts == held[base + 1].accounts,
        appended(
            held[base + 1],
            held[steps.len() as int + 1],
            kind_name(entity_kind),
            id,
            0,
            event_types,
            payloads,
            stamp,
        ),
{
    let n = steps.len() as int;
    let tail = steps.skip(base);
    let tables = held.subrange(base + 1, n + 2);
    let replies = h.replies.subrange(base + 1, n + 1);
    assert forall|j: int| 0 <= j < tail.len() implies ran(
        paths,
        #[trigger] tail[j],
        replies[j],
        tables[j],
        tables[j + 1],
    ) by {
        assert(tail[j] == steps[base + j]);
        let q = base + j;
        assert(ran(paths, steps[q], h.replies[q + 1], held[q + 1], held[q + 2]));
    }
    let m = payloads.len() as int;
    lemma_appended(
        paths,
        tail,
        replies,
        tables,
        entity_kind,
        id,
        0,
        event_types,
        payloads,
        stamp,
        m,
    );
    assert(payloads.take(m) =~= payloads);
    assert(event_types.take(m) =~= event_types);
    assert(tables[m] == held[n + 1]);
}

/// An account whose creation is reported as done was new and backs no account
/// set, no other account had its code or its external identifier, and it is
/// stored at version 1 with its values and its events from the first on.
pub proof fn law_created_account_is_stored(
    draft: Draft<AccountRecord>,
    record: AccountRecord,
    events: Vec<String>,
    at: Timestamp,
    id: String,
    stamp: String,
    creation: Creation,
    begun: (Scope<RepositoryCheck>, Request),
    paths: Paths,
    h: History<RepositoryCheck>,
    held: Seq<Tables>,
    ending: Ending<RepositoryError>,
)
    requires
        draft.first == Some(FirstEvent::Initialized(record)),
        draft.encoded.event_payloads == Ok::<Vec<String>, String>(events),
        call_ensures(encode_id, (record.id.0,), id),
        call_ensures(Timestamp::to_rfc3339, (&at,), stamp),
        call_ensures(create_account, (draft, at), Ok(creation)),
        call_ensures(Creation::begin, (creation, Ok(())), Ok(begun)),
        plays(begun, h),
        kept_along(paths, h, held),
        h.phases[h.replies.len() as int] == Phase::<RepositoryCheck>::Closed(ending),
        call_ensures(finish_write, (ending,), Ok(())),
    ensures
        !record.is_account_set,
        !held[0].accounts.dom().contains(id@),
        !account_code_taken(held[0], id@, record.code@),
        record.external_id matches Some(external_id) ==> !external_id_taken(
            paths,
            held[0],
            id@,
            external_id@,
        ),
        draft.encoded.payload matches Ok(payload) && held.last().accounts
            == held[0].accounts.insert(
            id@,
            AccountRow {
                version: 1,
                code: record.code@,
                name: record.name@,
                status: status_column(record.status),
                payload: payload@,
                created_at: stamp@,
                modified_at: stamp@,
            },
        ),
        held.last().journals == held[0].journals,
        appended(
            held[0],
            held.last(),
            "account"@,
            id@,
            0,
            draft.encoded.event_types@,
            events@,
            stamp@,
        ),
{
    let steps = creation.steps();
    lemma_history(begun, steps, h);
    lemma_written(steps, h, ending);
    lemma_committed(paths, steps, h, held);
    let n = steps.len() as int;
    let k: int = if record.external_id is Some {
        2
    } else {
        1
    };
    assert(ran(paths, steps[0], h.replies[0int + 1], held[0int + 1], held[0int + 2]));
    lemma_identity_found(
        paths,
        held[1],
        steps[0]->statement,
        h.replies[1],
        held[2],
        id@,
        record.code@,
    );
    if let Some(external_id) = record.external_id {
        assert(ran(paths, steps[1], h.replies[1int + 1], held[1int + 1], held[1int + 2]));
        lemma_identity_found(
            paths,
            held[2],
            steps[1]->statement,
            h.replies[2],
            held[3],
            id@,
            external_id@,
        );
    }
    assert(held[k + 1] == held[0]);
    assert(ran(paths, steps[k], h.replies[k + 1], held[k + 1], held[k + 2]));
    let payload = draft.encoded.payload->Ok_0;
    lemma_account_inserted(
        paths,
        held[k + 1],
        steps[k]->statement,
        h.replies[k + 1],
        held[k + 2],
        id@,
        record.code@,
        record.name@,
        status_text(record.status),
        payload@,
        stamp@,
    );
    lemma_created_events(
        paths,
        steps,
        h,
        held,
        k + 1,
        EntityKind::Account,
        id@,
        draft.encoded.event_types@,
        events@,
        stamp@,
    );
    lemma_same_events(
        held[0],
        held[k + 2],
        held.last(),
        "account"@,
        id@,
        draft.encoded.event_types@,
        events@,
        stamp@,
    );
}

proof fn lemma_version_read(
    reply: Reply,
    entity_kind: EntityKind,
    id: Seq<char>,
    expected: u32,
    version: i64,
)
    requires
        repository_verdict(Expectation::StoredVersion { entity_kind, id, expected }, reply) is Ok,
        reply matches Ok(answer) && answer.rows@.len() == 1 && column_number(
            answer.rows@[0],
            0,
            version,
        ),
    ensures
        version == expected,
{
}

proof fn lemma_written(
    steps: Seq<Step<RepositoryCheck>>,
    h: History<RepositoryCheck>,
    ending: Ending<RepositoryError>,
)
    requires
        is_history(End::Commit, steps, h),
        h.phases[h.replies.len() as int] == Phase::<RepositoryCheck>::Closed(ending),
        written(ending) is Ok,
    ensures
        ending is Committed,
{
    if let Ending::RolledBack { outcome, rollback } = ending {
        let last = h.replies.len() as int;
        law_refusal_rolls_back(End::Commit, steps, h, last, outcome, rollback);
        let j = choose|j: int| #[trigger]
            rolled_back_at(End::Commit, steps, h, outcome, last, j);
        assert(rolled_back_at(End::Commit, steps, h, outcome, last, j));
    }
}

proof fn lemma_next(
    paths: Paths,
    steps: Seq<Step<RepositoryCheck>>,
    h: History<RepositoryCheck>,
    held: Seq<Tables>,
    n: int,
)
    requires
        is_history(End::Commit, steps, h),
        kept_along(paths, h, held),
        smooth(h),
        h.phases[h.replies.len() as int] is Closed,
        0 <= n < steps.len(),
        h.replies.len() > n,
        irrefutable_up_to(steps, h, n),
        steps[n] is Run,
    ensures
        h.replies.len() > n + 1,
        h.requests[n + 1] == Request::Run(steps[n]->statement),
        answers(paths, held[n + 1], steps[n]->statement, h.replies[n + 1], held[n + 2]),
{
    lemma_begun(h);
    law_accepted_steps_go_on(End::Commit, steps, h, n);
    let q = n + 1;
    assert(serves(paths, held[0], held[q], h.requests[q], h.replies[q], held[q + 1]));
    assert(!fails(h.replies[q]));
}

proof fn lemma_begun(h: History<RepositoryCheck>)
    requires
        smooth(h),
        h.requests.len() == h.replies.len() + 1,
        h.replies.len() > 0,
        h.requests[0] == Request::Begin(TransactionBehavior::Immediate),
    ensures
        h.replies[0] is Ok,
{
    let first = h.replies[0];
}

proof fn lemma_accept(steps: Seq<Step<RepositoryCheck>>, h: History<RepositoryCheck>, n: int)
    requires
        0 <= n < steps.len(),
        irrefutable_up_to(steps, h, n),
        steps[n] matches Step::Run { check, .. } && repository_verdict(
            check@,
            h.replies[n + 1],
        ) is Ok,
    ensures
        irrefutable_up_to(steps, h, n + 1),
{
    if let Step::Run { check, .. } = steps[n] {
        lemma_verdict(check, h.replies[n + 1]);
    }
}

proof fn lemma_refused(
    paths: Paths,
    steps: Seq<Step<RepositoryCheck>>,
    h: History<RepositoryCheck>,
    held: Seq<Tables>,
    n: int,
    failure: RepositoryFailure,
    ending: Ending<RepositoryError>,
)
    requires
        is_history(End::Commit, steps, h),
        kept_along(paths, h, held),
        smooth(h),
        h.phases[h.replies.len() as int] == Phase::<RepositoryCheck>::Closed(ending),
        0 <= n < steps.len(),
        h.replies.len() > n,
        irrefutable_up_to(steps, h, n),
        steps[n] matches Step::Run { check, .. } && repository_verdict(check@, h.replies[n + 1])
            == Err::<(), RepositoryFailure>(failure),
    ensures
        ending matches Ending::RolledBack { outcome, rollback } && (outcome matches Err(error)
            && error@ == failure) && rollback is Ok,
        held.last() == held[0],
{
    lemma_next(paths, steps, h, held, n);
    lemma_begun(h);
    law_accepted_steps_go_on(End::Commit, steps, h, n);
    let check = steps[n]->check;
    lemma_verdict(check, h.replies[n + 1]);
    assert(steps[(n + 1) - 1] == steps[n]);
    law_refused_reply_is_the_last(End::Commit, steps, h, n + 1);
    assert(h.replies.len() > n + 2);
    law_first_refusal_is_the_outcome(End::Commit, steps, h, n, check);
    let q = n + 2;
    assert(h.replies[q] is Ok);
    law_closed_scope_stays(End::Commit, steps, h, n + 3, h.replies.len() as int);
    lemma_transactional(paths, h, held);
    law_undone_scope_leaves_no_trace(End::Commit, steps, h, held, h.replies.len() as int);
}

proof fn lemma_all_accepted(
    steps: Seq<Step<RepositoryCheck>>,
    h: History<RepositoryCheck>,
    ending: Ending<RepositoryError>,
)
    requires
        is_history(End::Commit, steps, h),
        smooth(h),
        h.phases[h.replies.len() as int] == Phase::<RepositoryCheck>::Closed(ending),
        h.replies.len() > steps.len(),
        irrefutable_up_to(steps, h, steps.len() as int),
    ensures
        ending is Committed,
{
    lemma_begun(h);
    let n = steps.len() as int;
    law_accepted_steps_go_on(End::Commit, steps, h, n);
    assert(h.replies.len() > n + 1);
    let q = n + 1;
    assert(h.replies[q] is Ok);
    assert(follows(End::Commit, h.phases[q], h.replies[q], h.phases[q + 1], h.requests[q + 1]));
    law_closed_scope_stays(End::Commit, steps, h, n + 2, h.replies.len() as int);
}

proof fn lemma_free_event(
    tables: Tables,
    after: Tables,
    entity_kind: EntityKind,
    id: Seq<char>,
    offset: u32,
    event_types: Seq<String>,
    payloads: Seq<String>,
    stamp: Seq<char>,
)
    requires
        no_events_behind(tables, kind_name(entity_kind), id, offset as int),
        appended(
            tables,
            after,
            kind_name(entity_kind),
            id,
            offset as int,
            event_types,
            payloads,
            stamp,
        ),
        offset + payloads.len() < u32::MAX,
    ensures
        !has_event(
            after,
            kind_name(entity_kind),
            id,
            (offset + payloads.len() + 1) as i64,
        ),
        !event_id_taken(after, event_id(entity_kind, id, offset + payloads.len() + 1)),
{
    let kind = kind_name(entity_kind);
    let sequence = offset + payloads.len() + 1;
    let name = event_id(entity_kind, id, sequence);
    let written = lemma_event_name(entity_kind, id, sequence);
    let key = EventKey { kind, entity: id, sequence: sequence as i64 };
    assert(!has_event(tables, kind, id, sequence as i64));
    assert(after.events.dom().contains(key) <==> tables.events.dom().contains(key));
    assert forall|other: EventKey| #[trigger]
        after.events.dom().contains(other) implies after.events[other].event_id != name by {
        if other.kind == kind && other.entity == id && offset < other.sequence <= offset
            + payloads.len() {
            let j = other.sequence - offset - 1;
            assert(payloads[j]@ == payloads[j]@);
            assert(event_stored(
                after,
                kind,
                id,
                offset + j + 1,
                event_types[j]@,
                payloads[j]@,
                stamp,
            ));
            let place = offset + j + 1;
            let number = place as i64;
            assert(other == EventKey { kind, entity: id, sequence: number });
            let earlier = choose|earlier: Seq<char>|
                names_event(
                    event_at(after, kind, id, number).event_id,
                    kind,
                    id,
                    place,
                    earlier,
                );
            if after.events[other].event_id == name {
                let front = kind + ":"@ + id + ":"@;
                assert((front + written).skip(front.len() as int) =~= written);
                assert((front + earlier).skip(front.len() as int) =~= earlier);
            }
        } else {
            assert(tables.events.dom().contains(other));
            assert(after.events[other] == tables.events[other]);
            if after.events[other].event_id == name {
                assert(names_event(tables.events[other].event_id, kind, id, sequence, written));
            }
        }
    }
}

proof fn lemma_appending(
    paths: Paths,
    steps: Seq<Step<RepositoryCheck>>,
    h: History<RepositoryCheck>,
    held: Seq<Tables>,
    base: int,
    count: int,
    entity_kind: EntityKind,
    id: Seq<char>,
    offset: u32,
    event_types: Seq<String>,
    payloads: Seq<String>,
    stamp: Seq<char>,
    m: int,
)
    requires
        is_history(End::Commit, steps, h),
        kept_along(paths, h, held),
        smooth(h),
        h.phases[h.replies.len() as int] is Closed,
        0 <= base <= count <= steps.len(),
        h.replies.len() > base,
        irrefutable_up_to(steps, h, base),
        appends_events(
            steps.subrange(base, count),
            entity_kind,
            id,
            offset,
            texts_of(event_types),
            texts_of(payloads),
            stamp,
        ),
        event_types.len() == payloads.len(),
        offset + payloads.len() <= u32::MAX,
        no_events_behind(held[base + 1], kind_name(entity_kind), id, offset as int),
        0 <= m <= payloads.len(),
    ensures
        count == base + payloads.len(),
        h.replies.len() > base + m,
        irrefutable_up_to(steps, h, base + m),
        held[base + m + 1].journals == held[base + 1].journals,
        held[base + m + 1].accounts == held[base + 1].accounts,
        appended(
            held[base + 1],
            held[base + m + 1],
            kind_name(entity_kind),
            id,
            offset as int,
            event_types.take(m),
            payloads.take(m),
            stamp,
        ),
    decreases m,
{
    let tail = steps.subrange(base, count);
    let kind = kind_name(entity_kind);
    if m > 0 {
        let k = m - 1;
        lemma_appending(
            paths,
            steps,
            h,
            held,
            base,
            count,
            entity_kind,
            id,
            offset,
            event_types,
            payloads,
            stamp,
            k,
        );
        let sequence = offset + k + 1;
        assert(tail[k] == steps[base + k]);
        assert(appends_event(
            tail[k],
            entity_kind,
            id,
            sequence,
            texts_of(event_types)[k],
            texts_of(payloads)[k],
            stamp,
        ));
        let n = base + k;
        lemma_next(paths, steps, h, held, n);
        lemma_event_appended(
            paths,
            held[n + 1],
            steps[n]->statement,
            h.replies[n + 1],
            held[n + 2],
            event_id(entity_kind, id, sequence),
            kind,
            id,
            sequence as i64,
            event_types[k]@,
            payloads[k]@,
            stamp,
        );
        lemma_free_event(
            held[base + 1],
            held[n + 1],
            entity_kind,
            id,
            offset,
            event_types.take(k),
            payloads.take(k),
            stamp,
        );
        lemma_accept(steps, h, n);
        assert(event_types.take(m).drop_last() =~= event_types.take(k));
        assert(payloads.take(m).drop_last() =~= payloads.take(k));
        lemma_one_more(
            held[base + 1],
            held[n + 1],
            held[n + 2],
            entity_kind,
            id,
            offset,
            event_types.take(m),
            payloads.take(m),
            stamp,
        );
    }
}

/// Whether `error` says that another entity has this identity.
pub open spec fn says_taken(
    error: RepositoryError,
    entity_kind: EntityKind,
    name: Seq<char>,
    taken: Seq<char>,
) -> bool {
    error matches RepositoryError::DuplicateIdentity { entity_kind: found, field, value } && found
        == entity_kind && field@ == name && value@ == taken
}

/// Whether `error` says that there is no such entity.
pub open spec fn says_missing(
    error: RepositoryError,
    entity_kind: EntityKind,
    id: Seq<char>,
) -> bool {
    error matches RepositoryError::NotFound { entity_kind: found, id: sought } && found
        == entity_kind && sought@ == id
}

/// Whether `error` says that an entity has another version than the one it was
/// read at.
pub open spec fn says_stale(
    error: RepositoryError,
    entity_kind: EntityKind,
    id: Seq<char>,
    expected: u32,
    actual: i64,
) -> bool {
    error matches RepositoryError::StaleVersion {
        entity_kind: found,
        id: sought,
        expected: wanted,
        actual: stored,
    } && found == entity_kind && sought@ == id && wanted == expected && stored == actual
}

/// A change of a journal has the outcome that the tables call for. It is refused
/// if the journal is missing or has another version than the one it was read at,
/// or if another journal has its new code; then nothing is stored. Otherwise its
/// events are stored and the new version is reported.
pub proof fn law_change_of_journal_has_its_outcome(
    journal: Changed<JournalRecord>,
    events: Vec<String>,
    expected: u32,
    at: Timestamp,
    id: String,
    change: Change,
    begun: (Scope<RepositoryCheck>, Request),
    next: u32,
    paths: Paths,
    h: History<RepositoryCheck>,
    held: Seq<Tables>,
    ending: Ending<RepositoryError>,
    result: Result<u32, RepositoryError>,
)
    requires
        call_ensures(encode_id, (journal.id,), id),
        journal.record.id.0 == journal.id,
        journal.encoded.event_payloads == Ok::<Vec<String>, String>(events),
        journal.encoded.event_types@.len() == events@.len(),
        call_ensures(persist_journal, (journal, expected, at), Ok(change)),
        call_ensures(Change::begin, (change,), begun),
        call_ensures(Change::next_version, (&change,), next),
        plays(begun, h),
        kept_along(paths, h, held),
        smooth(h),
        no_events_behind(held[0], "journal"@, id@, expected as int),
        h.phases[h.replies.len() as int] == Phase::<RepositoryCheck>::Closed(ending),
        call_ensures(finish_change, (next, ending), result),
    ensures
        if !held[0].journals.dom().contains(id@) {
            (result matches Err(error) && says_missing(error, EntityKind::Journal, id@))
                && held.last() == held[0]
        } else if held[0].journals[id@].version != expected {
            0 <= held[0].journals[id@].version <= u32::MAX ==> (result matches Err(error)
                && says_stale(
                error,
                EntityKind::Journal,
                id@,
                expected,
                held[0].journals[id@].version,
            )) && held.last() == held[0]
        } else if events@.len() > 0 && (journal.record.code matches Some(code)
            && journal_code_taken(paths, held[0], id@, code@)) {
            (result matches Err(error) && (journal.record.code matches Some(code) && says_taken(
                error,
                EntityKind::Journal,
                "code"@,
                code@,
            ))) && held.last() == held[0]
        } else {
            result matches Ok(version) && version == expected + events@.len()
        },
{
    let steps = change.steps();
    lemma_history(begun, steps, h);
    assert(h.replies.len() > 0);
    lemma_next(paths, steps, h, held, 0);
    lemma_first_held(paths, h, held);
    lemma_version_found(paths, held[1], steps[0]->statement, h.replies[1], held[2], id@);
    let present = held[0].journals.dom().contains(id@);
    let stored = held[0].journals[id@].version;
    if !present {
        lemma_refused(
            paths,
            steps,
            h,
            held,
            0,
            RepositoryFailure::NotFound { entity_kind: EntityKind::Journal, id: id@ },
            ending,
        );
    } else if stored != expected {
        if 0 <= stored <= u32::MAX {
            lemma_refused(
                paths,
                steps,
                h,
                held,
                0,
                RepositoryFailure::StaleVersion {
                    entity_kind: EntityKind::Journal,
                    id: id@,
                    expected,
                    actual: stored as u32,
                },
                ending,
            );
        }
    } else {
        lemma_accept(steps, h, 0);
        if events@.len() == 0 {
            lemma_all_accepted(steps, h, ending);
        } else {
            let k: int = if journal.record.code is Some {
                2
            } else {
                1
            };
            let n = steps.len() as int;
            if let Some(code) = journal.record.code {
                lemma_next(paths, steps, h, held, 1);
                lemma_identity_found(
                    paths,
                    held[2],
                    steps[1]->statement,
                    h.replies[2],
                    held[3],
                    id@,
                    code@,
                );
                if journal_code_taken(paths, held[0], id@, code@) {
                    lemma_refused(
                        paths,
                        steps,
                        h,
                        held,
                        1,
                        RepositoryFailure::DuplicateIdentity {
                            entity_kind: EntityKind::Journal,
                            field: "code"@,
                            value: code@,
                        },
                        ending,
                    );
                } else {
                    lemma_accept(steps, h, 1);
                }
            }
            if !(journal.record.code matches Some(code) && journal_code_taken(
                paths,
                held[0],
                id@,
                code@,
            )) {
                lemma_appending(
                    paths,
                    steps,
                    h,
                    held,
                    k,
                    n - 1,
                    EntityKind::Journal,
                    id@,
                    expected,
                    journal.encoded.event_types@,
                    events@,
                    time_text(at.at()),
                    events@.len() as int,
                );
                let q = n - 1;
                lemma_next(paths, steps, h, held, q);
                lemma_journal_updated(
                    paths,
                    held[n],
                    steps[q]->statement,
                    h.replies[n],
                    held[n + 1],
                    next as i64,
                    journal.record.name@,
                    status_text(journal.record.status),
                    journal.encoded.payload->Ok_0@,
                    time_text(at.at()),
                    id@,
                    expected as i64,
                );
                lemma_accept(steps, h, q);
                lemma_all_accepted(steps, h, ending);
            }
        }
    }
}

proof fn lemma_first_held(
    paths: Paths,
    h: History<RepositoryCheck>,
    held: Seq<Tables>,
)
    requires
        kept_along(paths, h, held),
        h.requests.len() == h.replies.len() + 1,
        h.replies.len() > 0,
        h.requests[0] is Begin,
    ensures
        held[1] == held[0],
{
    assert(serves(paths, held[0], held[0], h.requests[0], h.replies[0], held[0int + 1]));
}

/// A change of an account has the outcome that the tables call for. It is refused
/// if the account is missing or has another version than the one it was read at,
/// or if another account has its external identifier or its new code; then
/// nothing is stored. Otherwise its events are stored and the new version is
/// reported.
pub proof fn law_change_of_account_has_its_outcome(
    account: Changed<AccountRecord>,
    events: Vec<String>,
    expected: u32,
    at: Timestamp,
    id: String,
    change: Change,
    begun: (Scope<RepositoryCheck>, Request),
    next: u32,
    paths: Paths,
    h: History<RepositoryCheck>,
    held: Seq<Tables>,
    ending: Ending<RepositoryError>,
    result: Result<u32, RepositoryError>,
)
    requires
        call_ensures(encode_id, (account.id,), id),
        account.record.id.0 == account.id,
        account.encoded.event_payloads == Ok::<Vec<String>, String>(events),
        account.encoded.event_types@.len() == events@.len(),
        call_ensures(persist_account, (account, expected, at), Ok(change)),
        call_ensures(Change::begin, (change,), begun),
        call_ensures(Change::next_version, (&change,), next),
        plays(begun, h),
        kept_along(paths, h, held),
        smooth(h),
        no_events_behind(held[0], "account"@, id@, expected as int),
        h.phases[h.replies.len() as int] == Phase::<RepositoryCheck>::Closed(ending),
        call_ensures(finish_change, (next, ending), result),
    ensures
        if !held[0].accounts.dom().contains(id@) {
            (result matches Err(error) && says_missing(error, EntityKind::Account, id@))
                && held.last() == held[0]
        } else if held[0].accounts[id@].version != expected {
            0 <= held[0].accounts[id@].version <= u32::MAX ==> (result matches Err(error)
                && says_stale(
                error,
                EntityKind::Account,
                id@,
                expected,
                held[0].accounts[id@].version,
            )) && held.last() == held[0]
        } else if events@.len() > 0 && (account.record.external_id matches Some(external_id)
            && external_id_taken(paths, held[0], id@, external_id@)) {
            (result matches Err(error) && (account.record.external_id matches Some(external_id)
                && says_taken(error, EntityKind::Account, "external_id"@, external_id@)))
                && held.last() == held[0]
        } else if events@.len() > 0 && account_code_taken(held[0], id@, account.record.code@) {
            (result matches Err(error) && says_taken(
                error,
                EntityKind::Account,
                "code"@,
                account.record.code@,
            )) && held.last() == held[0]
        } else {
            result matches Ok(version) && version == expected + events@.len()
        },
{
    let steps = change.steps();
    lemma_history(begun, steps, h);
    assert(h.replies.len() > 0);
    lemma_next(paths, steps, h, held, 0);
    lemma_first_held(paths, h, held);
    lemma_version_found(paths, held[1], steps[0]->statement, h.replies[1], held[2], id@);
    let present = held[0].accounts.dom().contains(id@);
    let stored = held[0].accounts[id@].version;
    if !present {
        lemma_refused(
            paths,
            steps,
            h,
            held,
            0,
            RepositoryFailure::NotFound { entity_kind: EntityKind::Account, id: id@ },
            ending,
        );
    } else if stored != expected {
        if 0 <= stored <= u32::MAX {
            lemma_refused(
                paths,
                steps,
                h,
                held,
                0,
                RepositoryFailure::StaleVersion {
                    entity_kind: EntityKind::Account,
                    id: id@,
                    expected,
                    actual: stored as u32,
                },
                ending,
            );
        }
    } else {
        lemma_accept(steps, h, 0);
        if events@.len() == 0 {
            lemma_all_accepted(steps, h, ending);
        } else {
            let k: int = if account.record.external_id is Some {
                2
            } else {
                1
            };
            let n = steps.len() as int;
            if let Some(external_id) = account.record.external_id {
                lemma_next(paths, steps, h, held, 1);
                lemma_identity_found(
                    paths,
                    held[2],
                    steps[1]->statement,
                    h.replies[2],
                    held[3],
                    id@,
                    external_id@,
                );
                if external_id_taken(paths, held[0], id@, external_id@) {
                    lemma_refused(
                        paths,
                        steps,
                        h,
                        held,
                        1,
                        RepositoryFailure::DuplicateIdentity {
                            entity_kind: EntityKind::Account,
                            field: "external_id"@,
                            value: external_id@,
                        },
                        ending,
                    );
                } else {
                    lemma_accept(steps, h, 1);
                }
            }
            if !(account.record.external_id matches Some(external_id) && external_id_taken(
                paths,
                held[0],
                id@,
                external_id@,
            )) {
                lemma_appending(
                    paths,
                    steps,
                    h,
                    held,
                    k,
                    n - 1,
                    EntityKind::Account,
                    id@,
                    expected,
                    account.encoded.event_types@,
                    events@,
                    time_text(at.at()),
                    events@.len() as int,
                );
                let q = n - 1;
                lemma_next(paths, steps, h, held, q);
                lemma_account_updated(
                    paths,
                    held[n],
                    steps[q]->statement,
                    h.replies[n],
                    held[n + 1],
                    next as i64,
                    account.record.code@,
                    account.record.name@,
                    status_text(account.record.status),
                    account.encoded.payload->Ok_0@,
                    time_text(at.at()),
                    id@,
                    expected as i64,
                );
                lemma_same_codes(held[0], held[n], id@, account.record.code@);
                lemma_violated_columns();
                if account_code_taken(held[0], id@, account.record.code@) {
                    lemma_refused(
                        paths,
                        steps,
                        h,
                        held,
                        q,
                        RepositoryFailure::DuplicateIdentity {
                            entity_kind: EntityKind::Account,
                            field: "code"@,
                            value: account.record.code@,
                        },
                        ending,
                    );
                } else {
                    lemma_accept(steps, h, q);
                    lemma_all_accepted(steps, h, ending);
                }
            }
        }
    }
}

proof fn lemma_violated_columns()
    ensures
        has_part(
            lower_text("UNIQUE constraint failed: "@ + "cala_accounts.code"@),
            "cala_accounts.code"@,
        ),
        !has_part(
            lower_text("UNIQUE constraint failed: "@ + "cala_accounts.id"@),
            "cala_accounts.code"@,
        ),
{
    reveal_strlit("UNIQUE constraint failed: ");
    reveal_strlit("cala_accounts.code");
    reveal_strlit("cala_accounts.id");
    let part = "cala_accounts.code"@;
    let front = "UNIQUE constraint failed: "@;
    let code = lower_text(front + part);
    let id = lower_text(front + "cala_accounts.id"@);
    assert(code.subrange(26, 44) =~= part);
    assert(stands_at(code, part, 26));
    assert forall|at: int| !stands_at(id, part, at) by {
        if stands_at(id, part, at) {
            assert(part[4] == '_');
            assert(id.subrange(at, at + part.len())[4] == id[at + 4]);
            assert(id[at + 4] == '_');
            let place = at + 4;
            if place < 26 {
                assert(id[place] == lower(front[place]));
            } else {
                assert(id[place] == lower("cala_accounts.id"@[place - 26]));
            }
        }
    }
}

/// The creation of a journal has the outcome that the tables call for. It is
/// refused if another journal has its code or if its identifier is used; then
/// nothing is stored. Otherwise it is stored.
pub proof fn law_creation_of_journal_has_its_outcome(
    draft: Draft<JournalRecord>,
    record: JournalRecord,
    events: Vec<String>,
    at: Timestamp,
    id: String,
    creation: Creation,
    begun: (Scope<RepositoryCheck>, Request),
    paths: Paths,
    h: History<RepositoryCheck>,
    held: Seq<Tables>,
    ending: Ending<RepositoryError>,
    result: Result<(), RepositoryError>,
)
    requires
        draft.first == Some(FirstEvent::Initialized(record)),
        draft.encoded.event_payloads == Ok::<Vec<String>, String>(events),
        draft.encoded.event_types@.len() == events@.len() <= u32::MAX,
        call_ensures(encode_id, (record.id.0,), id),
        call_ensures(create_journal, (draft, at), Ok(creation)),
        call_ensures(Creation::begin, (creation, Ok(())), Ok(begun)),
        plays(begun, h),
        kept_along(paths, h, held),
        smooth(h),
        no_events_behind(held[0], "journal"@, id@, 0),
        h.phases[h.replies.len() as int] == Phase::<RepositoryCheck>::Closed(ending),
        call_ensures(finish_write, (ending,), result),
    ensures
        if record.code matches Some(code) && journal_code_taken(paths, held[0], id@, code@) {
            (result matches Err(error) && (record.code matches Some(code) && says_taken(
                error,
                EntityKind::Journal,
                "code"@,
                code@,
            ))) && held.last() == held[0]
        } else if held[0].journals.dom().contains(id@) {
            (result matches Err(error) && says_taken(error, EntityKind::Journal, "id"@, id@))
                && held.last() == held[0]
        } else {
            result is Ok
        },
{
    let steps = creation.steps();
    lemma_history(begun, steps, h);
    assert(h.replies.len() > 0);
    lemma_first_held(paths, h, held);
    let n = steps.len() as int;
    let k: int = if record.code is Some {
        1
    } else {
        0
    };
    if let Some(code) = record.code {
        lemma_next(paths, steps, h, held, 0);
        lemma_identity_found(
            paths,
            held[1],
            steps[0]->statement,
            h.replies[1],
            held[2],
            id@,
            code@,
        );
        if journal_code_taken(paths, held[0], id@, code@) {
            lemma_refused(
                paths,
                steps,
                h,
                held,
                0,
                RepositoryFailure::DuplicateIdentity {
                    entity_kind: EntityKind::Journal,
                    field: "code"@,
                    value: code@,
                },
                ending,
            );
        } else {
            lemma_accept(steps, h, 0);
        }
    }
    if !(record.code matches Some(code) && journal_code_taken(paths, held[0], id@, code@)) {
        lemma_next(paths, steps, h, held, k);
        lemma_journal_inserted(
            paths,
            held[k + 1],
            steps[k]->statement,
            h.replies[k + 1],
            held[k + 2],
            id@,
            record.name@,
            status_text(record.status),
            draft.encoded.payload->Ok_0@,
            time_text(at.at()),
        );
        if held[0].journals.dom().contains(id@) {
            lemma_refused(
                paths,
                steps,
                h,
                held,
                k,
                RepositoryFailure::DuplicateIdentity {
                    entity_kind: EntityKind::Journal,
                    field: "id"@,
                    value: id@,
                },
                ending,
            );
        } else {
            lemma_accept(steps, h, k);
            lemma_same_emptiness(held[0], held[k + 2], "journal"@, id@);
            assert(steps.subrange(k + 1, n) =~= steps.skip(k + 1));
            lemma_appending(
                paths,
                steps,
                h,
                held,
                k + 1,
                n,
                EntityKind::Journal,
                id@,
                0,
                draft.encoded.event_types@,
                events@,
                time_text(at.at()),
                events@.len() as int,
            );
            lemma_all_accepted(steps, h, ending);
        }
    }
}

proof fn lemma_same_emptiness(tables: Tables, other: Tables, kind: Seq<char>, id: Seq<char>)
    requires
        tables.events == other.events,
        no_events_behind(tables, kind, id, 0),
    ensures
        no_events_behind(other, kind, id, 0),
{
    assert forall|sequence: i64| sequence > 0 implies !(#[trigger] has_event(
        other,
        kind,
        id,
        sequence,
    )) by {
        assert(!has_event(tables, kind, id, sequence));
    }
    assert forall|key: EventKey, sequence: int, written: Seq<char>|
        other.events.dom().contains(key) && sequence > 0 implies !(#[trigger] names_event(
        other.events[key].event_id,
        kind,
        id,
        sequence,
        written,
    )) by {
        assert(tables.events.dom().contains(key));
    }
}

/// The creation of an account has the outcome that the tables call for. It is
/// refused if another account has its code or its external identifier or if its
/// identifier is used; then nothing is stored. Otherwise it is stored.
pub proof fn law_creation_of_account_has_its_outcome(
    draft: Draft<AccountRecord>,
    record: AccountRecord,
    events: Vec<String>,
    at: Timestamp,
    id: String,
    creation: Creation,
    begun: (Scope<RepositoryCheck>, Request),
    paths: Paths,
    h: History<RepositoryCheck>,
    held: Seq<Tables>,
    ending: Ending<RepositoryError>,
    result: Result<(), RepositoryError>,
)
    requires
        draft.first == Some(FirstEvent::Initialized(record)),
        draft.encoded.event_payloads == Ok::<Vec<String>, String>(events),
        draft.encoded.event_types@.len() == events@.len() <= u32::MAX,
        call_ensures(encode_id, (record.id.0,), id),
        call_ensures(create_account, (draft, at), Ok(creation)),
        call_ensures(Creation::begin, (creation, Ok(())), Ok(begun)),
        plays(begun, h),
        kept_along(paths, h, held),
        smooth(h),
        no_events_behind(held[0], "account"@, id@, 0),
        h.phases[h.replies.len() as int] == Phase::<RepositoryCheck>::Closed(ending),
        call_ensures(finish_write, (ending,), result),
    ensures
        if account_code_taken(held[0], id@, record.code@) {
            (result matches Err(error) && says_taken(
                error,
                EntityKind::Account,
                "code"@,
                record.code@,
            )) && held.last() == held[0]
        } else if record.external_id matches Some(external_id) && external_id_taken(
            paths,
            held[0],
            id@,
            external_id@,
        ) {
            (result matches Err(error) && (record.external_id matches Some(external_id)
                && says_taken(error, EntityKind::Account, "external_id"@, external_id@)))
                && held.last() == held[0]
        } else if held[0].accounts.dom().contains(id@) {
            (result matches Err(error) && says_taken(error, EntityKind::Account, "id"@, id@))
                && held.last() == held[0]
        } else {
            result is Ok
        },
{
    let steps = creation.steps();
    lemma_history(begun, steps, h);
    assert(h.replies.len() > 0);
    lemma_first_held(paths, h, held);
    let n = steps.len() as int;
    let k: int = if record.external_id is Some {
        2
    } else {
        1
    };
    lemma_next(paths, steps, h, held, 0);
    lemma_identity_found(
        paths,
        held[1],
        steps[0]->statement,
        h.replies[1],
        held[2],
        id@,
        record.code@,
    );
    if account_code_taken(held[0], id@, record.code@) {
        lemma_refused(
            paths,
            steps,
            h,
            held,
            0,
            RepositoryFailure::DuplicateIdentity {
                entity_kind: EntityKind::Account,
                field: "code"@,
                value: record.code@,
            },
            ending,
        );
    } else {
        lemma_accept(steps, h, 0);
        if let Some(external_id) = record.external_id {
            lemma_next(paths, steps, h, held, 1);
            lemma_identity_found(
                paths,
                held[2],
                steps[1]->statement,
                h.replies[2],
                held[3],
                id@,
                external_id@,
            );
            if external_id_taken(paths, held[0], id@, external_id@) {
                lemma_refused(
                    paths,
                    steps,
                    h,
                    held,
                    1,
                    RepositoryFailure::DuplicateIdentity {
                        entity_kind: EntityKind::Account,
                        field: "external_id"@,
                        value: external_id@,
                    },
                    ending,
                );
            } else {
                lemma_accept(steps, h, 1);
            }
        }
        if !(record.external_id matches Some(external_id) && external_id_taken(
            paths,
            held[0],
            id@,
            external_id@,
        )) {
            lemma_next(paths, steps, h, held, k);
            lemma_account_inserted(
                paths,
                held[k + 1],
                steps[k]->statement,
                h.replies[k + 1],
                held[k + 2],
                id@,
                record.code@,
                record.name@,
                status_text(record.status),
                draft.encoded.payload->Ok_0@,
                time_text(at.at()),
            );
            lemma_violated_columns();
            if held[0].accounts.dom().contains(id@) {
                lemma_refused(
                    paths,
                    steps,
                    h,
                    held,
                    k,
                    RepositoryFailure::DuplicateIdentity {
                        entity_kind: EntityKind::Account,
                        field: "id"@,
                        value: id@,
                    },
                    ending,
                );
            } else {
                lemma_accept(steps, h, k);
                lemma_same_emptiness(held[0], held[k + 2], "account"@, id@);
                assert(steps.subrange(k + 1, n) =~= steps.skip(k + 1));
                lemma_appending(
                    paths,
                    steps,
                    h,
                    held,
                    k + 1,
                    n,
                    EntityKind::Account,
                    id@,
                    0,
                    draft.encoded.event_types@,
                    events@,
                    time_text(at.at()),
                    events@.len() as int,
                );
                lemma_all_accepted(steps, h, ending);
            }
        }
    }
}

} // verus!
