//! Storing the new events of an entity that was read before.
use crate::identity::hyphenated;
use crate::journal_account::codec::{encode_id, encode_status, status_text, time_read};
use crate::journal_account::error::{
    codec, kind_name, EntityKind, RepositoryError, RepositoryFailure,
};
use crate::journal_account::expect::{Expectation, RepositoryCheck};
use crate::journal_account::record::{
    entity_version, plain_account, require_entity_version, require_non_account_set, texts_of,
    AccountFacts, AccountRecord, Changed, Encoded, JournalFacts, JournalRecord,
};
use crate::journal_account::statements::{
    appends_events, checks_identity, checks_version, expects, identity_step, insert_events,
    version_step, ACCOUNT_EXTERNAL_ID_TAKEN, JOURNAL_CODE_TAKEN,
};
use crate::journal_account::write::{
    encoding_fault, make_ready, time_text, UPDATE_ACCOUNT, UPDATE_JOURNAL,
};
use crate::storage::engine::{
    execute, int_param, params_of, text_param, Asked, Param, TransactionBehavior,
};
use crate::storage::scope::{End, Phase, Request, Scope, Step};
use crate::text::join2;
use crate::time::{in_written_years, whole_micros, Timestamp};
use std::collections::VecDeque;
use vstd::prelude::*;
use vstd::string::*;

verus! {

/// The version that an entity has once its new events are stored, or why they
/// are not.
pub open spec fn version_after(
    entity_kind: EntityKind,
    id: u128,
    expected: u32,
    persisted: usize,
    event_payloads: Result<Vec<String>, String>,
) -> Result<u32, RepositoryFailure> {
    match entity_version(entity_kind, hyphenated(id), expected, persisted) {
        Err(failure) => Err(failure),
        Ok(_) => match event_payloads {
            Err(reason) => Err(RepositoryFailure::Codec(reason@)),
            Ok(payloads) => if payloads@.len() > u32::MAX {
                Err(
                    RepositoryFailure::Codec(
                        kind_name(entity_kind) + " event count exceeds u32"@,
                    ),
                )
            } else if expected + payloads@.len() > u32::MAX {
                Err(RepositoryFailure::Codec(kind_name(entity_kind) + " version overflow"@))
            } else {
                Ok((expected + payloads@.len()) as u32)
            },
        },
    }
}

/// The version that a changed entity has once its new events are stored at
/// `at`, or why they are not. Without new events neither its values nor the
/// instant count.
pub open spec fn change_outcome(
    entity_kind: EntityKind,
    id: u128,
    expected: u32,
    persisted: usize,
    encoded: Encoded,
    at: (i64, u32),
) -> Result<u32, RepositoryFailure> {
    match version_after(entity_kind, id, expected, persisted, encoded.event_payloads) {
        Err(failure) => Err(failure),
        Ok(next) => if next == expected {
            Ok(next)
        } else {
            match encoding_fault(encoded, at) {
                Some(failure) => Err(failure),
                None => Ok(next),
            }
        },
    }
}

/// Whether `steps` store the changes of a journal: it has the version that was
/// read, its code is free, its events are appended right after the stored
/// ones, and its projection is updated last.
pub open spec fn updates_journal(
    steps: Seq<Step<RepositoryCheck>>,
    facts: JournalFacts,
    payload: Seq<char>,
    event_types: Seq<Seq<char>>,
    event_payloads: Seq<Seq<char>>,
    timestamp: Seq<char>,
    expected: u32,
    next: u32,
) -> bool {
    let id = hyphenated(facts.id.0);
    let k: int = if facts.code is Some {
        2
    } else {
        1
    };
    &&& steps.len() > k
    &&& checks_version(steps[0], EntityKind::Journal, id, expected)
    &&& facts.code matches Some(code) ==> checks_identity(
        steps[1],
        JOURNAL_CODE_TAKEN@,
        EntityKind::Journal,
        id,
        "code"@,
        code,
    )
    &&& appends_events(
        steps.subrange(k, steps.len() - 1),
        EntityKind::Journal,
        id,
        expected,
        event_types,
        event_payloads,
        timestamp,
    )
    &&& expects(
        steps.last(),
        Asked::Execute(
            UPDATE_JOURNAL@,
            seq![
                Param::Integer(next as i64),
                Param::Text(facts.name),
                Param::Text(status_text(facts.status)),
                Param::Text(payload),
                Param::Text(timestamp),
                Param::Text(id),
                Param::Integer(expected as i64),
            ],
        ),
        Expectation::JournalUpdated { id },
    )
}

/// Whether `steps` store the changes of an account: it has the version that was
/// read, its external identifier is free, its events are appended right after
/// the stored ones, and its projection is updated last.
pub open spec fn updates_account(
    steps: Seq<Step<RepositoryCheck>>,
    facts: AccountFacts,
    payload: Seq<char>,
    event_types: Seq<Seq<char>>,
    event_payloads: Seq<Seq<char>>,
    timestamp: Seq<char>,
    expected: u32,
    next: u32,
) -> bool {
    let id = hyphenated(facts.id.0);
    let k: int = if facts.external_id is Some {
        2
    } else {
        1
    };
    &&& steps.len() > k
    &&& checks_version(steps[0], EntityKind::Account, id, expected)
    &&& facts.external_id matches Some(external_id) ==> checks_identity(
        steps[1],
        ACCOUNT_EXTERNAL_ID_TAKEN@,
        EntityKind::Account,
        id,
        "external_id"@,
        external_id,
    )
    &&& appends_events(
        steps.subrange(k, steps.len() - 1),
        EntityKind::Account,
        id,
        expected,
        event_types,
        event_payloads,
        timestamp,
    )
    &&& expects(
        steps.last(),
        Asked::Execute(
            UPDATE_ACCOUNT@,
            seq![
                Param::Integer(next as i64),
                Param::Text(facts.code),
                Param::Text(facts.name),
                Param::Text(status_text(facts.status)),
                Param::Text(payload),
                Param::Text(timestamp),
                Param::Text(id),
                Param::Integer(expected as i64),
            ],
        ),
        Expectation::AccountUpdated { id, code: facts.code },
    )
}

/// A change that was admitted: what it stores, the version it leads to, and the
/// instant that its events bear once they are stored.
pub struct Change {
    steps: VecDeque<Step<RepositoryCheck>>,
    next_version: u32,
    recorded_at: Option<Timestamp>,
}

impl Change {
    /// The steps that store the change.
    pub closed spec fn steps(self) -> Seq<Step<RepositoryCheck>> {
        self.steps@
    }

    /// The version that the entity then has.
    pub closed spec fn next(self) -> u32 {
        self.next_version
    }

    /// The instant that the new events bear; nothing if there are none.
    pub closed spec fn at(self) -> Option<(i64, u32)> {
        match self.recorded_at {
            Some(t) => Some(t.at()),
            None => None,
        }
    }

    /// The version that the entity then has.
    pub fn next_version(&self) -> (r: u32)
        ensures
            r == self.next(),
    {
        self.next_version
    }

    /// The instant that the new events bear; nothing if there are none.
    pub fn recorded_at(&self) -> (r: Option<Timestamp>)
        ensures
            match r {
                Some(t) => self.at() == Some(t.at()),
                None => self.at() is None,
            },
    {
        self.recorded_at
    }

    /// Begins to store the change.
    pub fn begin(self) -> (r: (Scope<RepositoryCheck>, Request))
        ensures
            r.0.end == End::Commit,
            (r.0.phase matches Phase::Opening(sequence) && sequence.steps() == self.steps()
                && sequence.complete()),
            r.1 == Request::Begin(TransactionBehavior::Immediate),
    {
        Scope::new(End::Commit, self.steps)
    }
}

fn count_version(
    entity_kind: EntityKind,
    id: u128,
    expected: u32,
    persisted: usize,
    event_payloads: &Result<Vec<String>, String>,
) -> (r: Result<u32, RepositoryError>)
    ensures
        match r {
            Ok(next) => version_after(entity_kind, id, expected, persisted, *event_payloads)
                == Ok::<u32, RepositoryFailure>(next),
            Err(error) => version_after(entity_kind, id, expected, persisted, *event_payloads)
                == Err::<u32, RepositoryFailure>(error@),
        },
{
    if let Err(error) = require_entity_version(entity_kind, encode_id(id), expected, persisted) {
        return Err(error);
    }
    match event_payloads {
        Err(reason) => Err(codec(reason.clone())),
        Ok(payloads) => {
            if payloads.len() as u64 > u32::MAX as u64 {
                return Err(codec(join2(entity_kind.name(), " event count exceeds u32")));
            }
            let new_count: u32 = payloads.len() as u32;
            match expected.checked_add(new_count) {
                None => Err(codec(join2(entity_kind.name(), " version overflow"))),
                Some(next) => Ok(next),
            }
        },
    }
}

fn unchanged(entity_kind: EntityKind, id: u128, expected: u32) -> (r: Change)
    ensures
        r.steps().len() == 1,
        checks_version(r.steps()[0], entity_kind, hyphenated(id), expected),
        r.next() == expected,
        r.at() is None,
{
    let id = encode_id(id);
    let mut steps: VecDeque<Step<RepositoryCheck>> = VecDeque::new();
    steps.push_back(version_step(entity_kind, id.as_str(), expected));
    Change { steps, next_version: expected, recorded_at: None }
}

/// Whether `change` checks the stored version and does nothing else.
pub open spec fn leaves_unchanged(
    change: Change,
    entity_kind: EntityKind,
    id: u128,
    expected: u32,
) -> bool {
    &&& change.steps().len() == 1
    &&& checks_version(change.steps()[0], entity_kind, hyphenated(id), expected)
    &&& change.next() == expected
    &&& change.at() is None
}

/// Whether `change` bears the instant that the stored text of `at` reads back
/// as: within the years 0 to 9999, `at` cut down to whole microseconds.
pub open spec fn bears(change: Change, at: (i64, u32)) -> bool {
    &&& change.at() matches Some(stored)
    &&& time_read(time_text(at)) == Ok::<(i64, u32), RepositoryFailure>(stored)
    &&& in_written_years(at.0) ==> stored == (at.0, whole_micros(at.1))
}

/// Admits the changes of a journal that was read at version
/// `expected_version`, which is the number of its stored events.
pub fn persist_journal(
    journal: Changed<JournalRecord>,
    expected_version: u32,
    recorded_at: Timestamp,
) -> (r: Result<Change, RepositoryError>)
    ensures
        match r {
            Ok(change) => {
                &&& change_outcome(
                    EntityKind::Journal,
                    journal.id,
                    expected_version,
                    journal.persisted,
                    journal.encoded,
                    recorded_at.at(),
                ) == Ok::<u32, RepositoryFailure>(change.next())
                &&& if change.next() == expected_version {
                    leaves_unchanged(change, EntityKind::Journal, journal.id, expected_version)
                } else {
                    &&& journal.encoded.payload matches Ok(payload)
                    &&& journal.encoded.event_payloads matches Ok(event_payloads)
                    &&& updates_journal(
                        change.steps(),
                        journal.record@,
                        payload@,
                        texts_of(journal.encoded.event_types@),
                        texts_of(event_payloads@),
                        time_text(recorded_at.at()),
                        expected_version,
                        change.next(),
                    )
                    &&& bears(change, recorded_at.at())
                }
            },
            Err(error) => change_outcome(
                EntityKind::Journal,
                journal.id,
                expected_version,
                journal.persisted,
                journal.encoded,
                recorded_at.at(),
            ) == Err::<u32, RepositoryFailure>(error@),
        },
        match version_after(
            EntityKind::Journal,
            journal.id,
            expected_version,
            journal.persisted,
            journal.encoded.event_payloads,
        ) {
            Ok(next) => (next == expected_version || journal.encoded.payload is Ok
                && in_written_years(recorded_at.at().0)) ==> r is Ok,
            Err(_) => r is Err,
        },
{
    let next_version = match count_version(
        EntityKind::Journal,
        journal.id,
        expected_version,
        journal.persisted,
        &journal.encoded.event_payloads,
    ) {
        Err(error) => return Err(error),
        Ok(next) => next,
    };
    if next_version == expected_version {
        return Ok(unchanged(EntityKind::Journal, journal.id, expected_version));
    }
    let record = journal.record;
    let ready = match make_ready(journal.encoded, recorded_at) {
        Err(error) => return Err(error),
        Ok(ready) => ready,
    };
    let id = encode_id(record.id.0);
    let mut steps: VecDeque<Step<RepositoryCheck>> = VecDeque::new();
    steps.push_back(version_step(EntityKind::Journal, id.as_str(), expected_version));
    if let Some(code) = &record.code {
        steps.push_back(
            identity_step(
                JOURNAL_CODE_TAKEN,
                EntityKind::Journal,
                id.as_str(),
                "code",
                code.as_str(),
            ),
        );
    }
    let ghost head = steps@;
    let mut steps = insert_events(
        steps,
        EntityKind::Journal,
        id.as_str(),
        expected_version,
        &ready.event_types,
        &ready.event_payloads,
        ready.timestamp.as_str(),
    );
    let ghost body = steps@;
    let params = vec![
        int_param(next_version as i64),
        text_param(record.name.as_str()),
        text_param(encode_status(record.status)),
        text_param(ready.payload.as_str()),
        text_param(ready.timestamp.as_str()),
        text_param(id.as_str()),
        int_param(expected_version as i64),
    ];
    proof {
        assert(params_of(params@) =~= seq![
            Param::Integer(next_version as i64),
            Param::Text(record.name@),
            Param::Text(status_text(record.status)),
            Param::Text(ready.payload@),
            Param::Text(ready.timestamp@),
            Param::Text(id@),
            Param::Integer(expected_version as i64),
        ]);
    }
    steps.push_back(
        Step::Run {
            statement: execute(UPDATE_JOURNAL, params),
            check: RepositoryCheck::JournalUpdated { id: id.clone() },
        },
    );
    proof {
        assert(forall|i: int| 0 <= i < head.len() ==> body.take(head.len() as int)[i] == steps@[i]);
        assert(steps@.subrange(head.len() as int, steps@.len() - 1) =~= body.skip(
            head.len() as int,
        ));
    }
    Ok(Change { steps, next_version, recorded_at: Some(ready.recorded_at) })
}

/// What becomes of the changes of an account: those of an account that backs an
/// account set are refused before anything else.
pub open spec fn account_outcome(
    account: Changed<AccountRecord>,
    expected: u32,
    at: (i64, u32),
) -> Result<u32, RepositoryFailure> {
    match plain_account(account.record.is_account_set) {
        Err(failure) => Err(failure),
        Ok(_) => change_outcome(
            EntityKind::Account,
            account.id,
            expected,
            account.persisted,
            account.encoded,
            at,
        ),
    }
}

/// Admits the changes of an account that was read at version
/// `expected_version`, which is the number of its stored events.
///
/// Events are appended before the projection is updated. If the projection's
/// code turns out to be taken, the rollback removes them.
pub fn persist_account(
    account: Changed<AccountRecord>,
    expected_version: u32,
    recorded_at: Timestamp,
) -> (r: Result<Change, RepositoryError>)
    ensures
        match r {
            Ok(change) => {
                &&& account_outcome(account, expected_version, recorded_at.at()) == Ok::<
                    u32,
                    RepositoryFailure,
                >(change.next())
                &&& if change.next() == expected_version {
                    leaves_unchanged(change, EntityKind::Account, account.id, expected_version)
                } else {
                    &&& account.encoded.payload matches Ok(payload)
                    &&& account.encoded.event_payloads matches Ok(event_payloads)
                    &&& updates_account(
                        change.steps(),
                        account.record@,
                        payload@,
                        texts_of(account.encoded.event_types@),
                        texts_of(event_payloads@),
                        time_text(recorded_at.at()),
                        expected_version,
                        change.next(),
                    )
                    &&& bears(change, recorded_at.at())
                }
            },
            Err(error) => account_outcome(account, expected_version, recorded_at.at()) == Err::<
                u32,
                RepositoryFailure,
            >(error@),
        },
        match version_after(
            EntityKind::Account,
            account.id,
            expected_version,
            account.persisted,
            account.encoded.event_payloads,
        ) {
            Ok(next) => (!account.record.is_account_set && (next == expected_version
                || account.encoded.payload is Ok && in_written_years(recorded_at.at().0)))
                ==> r is Ok,
            Err(_) => r is Err,
        },
{
    if let Err(error) = require_non_account_set(account.record.is_account_set) {
        return Err(error);
    }
    let next_version = match count_version(
        EntityKind::Account,
        account.id,
        expected_version,
        account.persisted,
        &account.encoded.event_payloads,
    ) {
        Err(error) => return Err(error),
        Ok(next) => next,
    };
    if next_version == expected_version {
        return Ok(unchanged(EntityKind::Account, account.id, expected_version));
    }
    let record = account.record;
    let ready = match make_ready(account.encoded, recorded_at) {
        Err(error) => return Err(error),
        Ok(ready) => ready,
    };
    let id = encode_id(record.id.0);
    let mut steps: VecDeque<Step<RepositoryCheck>> = VecDeque::new();
    steps.push_back(version_step(EntityKind::Account, id.as_str(), expected_version));
    if let Some(external_id) = &record.external_id {
        steps.push_back(
            identity_step(
                ACCOUNT_EXTERNAL_ID_TAKEN,
                EntityKind::Account,
                id.as_str(),
                "external_id",
                external_id.as_str(),
            ),
        );
    }
    let ghost head = steps@;
    let mut steps = insert_events(
        steps,
        EntityKind::Account,
        id.as_str(),
        expected_version,
        &ready.event_types,
        &ready.event_payloads,
        ready.timestamp.as_str(),
    );
    let ghost body = steps@;
    let params = vec![
        int_param(next_version as i64),
        text_param(record.code.as_str()),
        text_param(record.name.as_str()),
        text_param(encode_status(record.status)),
        text_param(ready.payload.as_str()),
        text_param(ready.timestamp.as_str()),
        text_param(id.as_str()),
        int_param(expected_version as i64),
    ];
    proof {
        assert(params_of(params@) =~= seq![
            Param::Integer(next_version as i64),
            Param::Text(record.code@),
            Param::Text(record.name@),
            Param::Text(status_text(record.status)),
            Param::Text(ready.payload@),
            Param::Text(ready.timestamp@),
            Param::Text(id@),
            Param::Integer(expected_version as i64),
        ]);
    }
    steps.push_back(
        Step::Run {
            statement: execute(UPDATE_ACCOUNT, params),
            check: RepositoryCheck::AccountUpdated { id: id.clone(), code: record.code.clone() },
        },
    );
    proof {
        assert(forall|i: int| 0 <= i < head.len() ==> body.take(head.len() as int)[i] == steps@[i]);
        assert(steps@.subrange(head.len() as int, steps@.len() - 1) =~= body.skip(
            head.len() as int,
        ));
    }
    Ok(Change { steps, next_version, recorded_at: Some(ready.recorded_at) })
}

} // verus!
