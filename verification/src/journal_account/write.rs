//! Creating entities.
use crate::identity::hyphenated;
use crate::journal_account::codec::{
    decode_time, encode_id, encode_status, encode_time, status_text, time_read,
};
use crate::journal_account::error::{
    codec, corrupt, corruption, EntityKind, RepositoryError, RepositoryFailure,
};
use crate::journal_account::expect::{Expectation, RepositoryCheck};
use crate::journal_account::record::{
    initial, plain_account, require_initial, require_non_account_set, texts_of, AccountFacts,
    AccountRecord, Draft, Encoded, FirstEvent, JournalFacts, JournalRecord,
};
use crate::journal_account::statements::{
    appends_events, checks_identity, expects, identity_step, insert_events, ACCOUNT_CODE_TAKEN,
    ACCOUNT_EXTERNAL_ID_TAKEN, JOURNAL_CODE_TAKEN,
};
use crate::storage::engine::{execute, params_of, text_param, Asked, Param, TransactionBehavior};
use crate::storage::scope::{End, Phase, Request, Scope, Step};
use crate::time::{in_written_years, rfc3339_micros, whole_micros, Timestamp};
use std::collections::VecDeque;
use vstd::prelude::*;
use vstd::string::*;

verus! {

/// Inserts the projection of a journal.
pub const INSERT_JOURNAL: &'static str = "INSERT INTO cala_journals \
    (id, version, name, status, payload, created_at, modified_at) \
    VALUES (?1, 1, ?2, ?3, ?4, ?5, ?5)";

/// Inserts the projection of an account.
pub const INSERT_ACCOUNT: &'static str = "INSERT INTO cala_accounts \
    (id, version, code, name, status, payload, created_at, modified_at) \
    VALUES (?1, 1, ?2, ?3, ?4, ?5, ?6, ?6)";

/// Updates the projection of a journal that still has the version read.
pub const UPDATE_JOURNAL: &'static str =
    "UPDATE cala_journals SET version = ?1, name = ?2, status = ?3, \
    payload = ?4, modified_at = ?5 WHERE id = ?6 AND version = ?7";

/// Updates the projection of an account that still has the version read.
pub const UPDATE_ACCOUNT: &'static str =
    "UPDATE cala_accounts SET version = ?1, code = ?2, name = ?3, status = ?4, \
    payload = ?5, modified_at = ?6 WHERE id = ?7 AND version = ?8";

/// The stored text of an instant.
pub open spec fn time_text(at: (i64, u32)) -> Seq<char> {
    rfc3339_micros(at.0, at.1)
}

/// Whether `steps` create a journal: its code is free, its projection is
/// inserted, and its events are appended from the first place on.
pub open spec fn creates_journal(
    steps: Seq<Step<RepositoryCheck>>,
    facts: JournalFacts,
    payload: Seq<char>,
    event_types: Seq<Seq<char>>,
    event_payloads: Seq<Seq<char>>,
    timestamp: Seq<char>,
) -> bool {
    let id = hyphenated(facts.id.0);
    let k: int = if facts.code is Some {
        1
    } else {
        0
    };
    &&& steps.len() > k
    &&& facts.code matches Some(code) ==> checks_identity(
        steps[0],
        JOURNAL_CODE_TAKEN@,
        EntityKind::Journal,
        id,
        "code"@,
        code,
    )
    &&& expects(
        steps[k],
        Asked::Execute(
            INSERT_JOURNAL@,
            seq![
                Param::Text(id),
                Param::Text(facts.name),
                Param::Text(status_text(facts.status)),
                Param::Text(payload),
                Param::Text(timestamp),
            ],
        ),
        Expectation::JournalInserted { id },
    )
    &&& appends_events(
        steps.skip(k + 1),
        EntityKind::Journal,
        id,
        0,
        event_types,
        event_payloads,
        timestamp,
    )
}

/// Whether `steps` create an account: its code and its external identifier are
/// free, its projection is inserted, and its events are appended from the
/// first place on.
pub open spec fn creates_account(
    steps: Seq<Step<RepositoryCheck>>,
    facts: AccountFacts,
    payload: Seq<char>,
    event_types: Seq<Seq<char>>,
    event_payloads: Seq<Seq<char>>,
    timestamp: Seq<char>,
) -> bool {
    let id = hyphenated(facts.id.0);
    let k: int = if facts.external_id is Some {
        2
    } else {
        1
    };
    &&& steps.len() > k
    &&& checks_identity(
        steps[0],
        ACCOUNT_CODE_TAKEN@,
        EntityKind::Account,
        id,
        "code"@,
        facts.code,
    )
    &&& facts.external_id matches Some(external_id) ==> checks_identity(
        steps[1],
        ACCOUNT_EXTERNAL_ID_TAKEN@,
        EntityKind::Account,
        id,
        "external_id"@,
        external_id,
    )
    &&& expects(
        steps[k],
        Asked::Execute(
            INSERT_ACCOUNT@,
            seq![
                Param::Text(id),
                Param::Text(facts.code),
                Param::Text(facts.name),
                Param::Text(status_text(facts.status)),
                Param::Text(payload),
                Param::Text(timestamp),
            ],
        ),
        Expectation::AccountInserted { id, code: facts.code },
    )
    &&& appends_events(
        steps.skip(k + 1),
        EntityKind::Account,
        id,
        0,
        event_types,
        event_payloads,
        timestamp,
    )
}

/// A creation that was admitted: what it stores, and the instant it bears once
/// it is stored.
pub struct Creation {
    steps: VecDeque<Step<RepositoryCheck>>,
    recorded_at: Timestamp,
}

impl Creation {
    /// The steps that store the entity.
    pub closed spec fn steps(self) -> Seq<Step<RepositoryCheck>> {
        self.steps@
    }

    /// The instant that the stored events bear.
    pub closed spec fn at(self) -> (i64, u32) {
        self.recorded_at.at()
    }

    /// The instant that the stored events bear.
    pub fn recorded_at(&self) -> (r: Timestamp)
        ensures
            r.at() == self.at(),
    {
        self.recorded_at
    }

    /// Begins the creation, unless the entity does not follow from its events:
    /// `folded` says whether it does, and else why.
    pub fn begin(self, folded: Result<(), String>) -> (r: Result<
        (Scope<RepositoryCheck>, Request),
        RepositoryError,
    >)
        ensures
            match folded {
                Ok(_) => {
                    &&& r matches Ok(begun)
                    &&& begun.0.end == End::Commit
                    &&& begun.0.phase matches Phase::Opening(sequence)
                    &&& sequence.steps() == self.steps()
                    &&& sequence.complete()
                    &&& begun.1 == Request::Begin(TransactionBehavior::Immediate)
                },
                Err(reason) => r matches Err(error) && error@ == RepositoryFailure::Codec(reason@),
            },
    {
        match folded {
            Ok(_) => Ok(Scope::new(End::Commit, self.steps)),
            Err(reason) => Err(codec(reason)),
        }
    }
}

/// What keeps an entity with these values from being stored at `at`, if
/// anything does.
pub open spec fn encoding_fault(encoded: Encoded, at: (i64, u32)) -> Option<RepositoryFailure> {
    match encoded.payload {
        Err(reason) => Some(RepositoryFailure::Codec(reason@)),
        Ok(_) => match encoded.event_payloads {
            Err(reason) => Some(RepositoryFailure::Codec(reason@)),
            Ok(_) => match time_read(time_text(at)) {
                Err(failure) => Some(failure),
                Ok(_) => None,
            },
        },
    }
}

/// What keeps a journal from being created, if anything does.
pub open spec fn journal_draft_fault(
    draft: Draft<JournalRecord>,
    at: (i64, u32),
) -> Option<RepositoryFailure> {
    match initial(EntityKind::Journal, draft.id, draft.first) {
        Err(failure) => Some(failure),
        Ok(record) => if draft.count != 1 {
            Some(
                corruption(
                    EntityKind::Journal,
                    hyphenated(record.id.0),
                    "new journal must contain exactly one event"@,
                ),
            )
        } else {
            encoding_fault(draft.encoded, at)
        },
    }
}

/// What keeps an account from being created, if anything does.
pub open spec fn account_draft_fault(
    draft: Draft<AccountRecord>,
    at: (i64, u32),
) -> Option<RepositoryFailure> {
    match initial(EntityKind::Account, draft.id, draft.first) {
        Err(failure) => Some(failure),
        Ok(record) => match plain_account(record.is_account_set) {
            Err(failure) => Some(failure),
            Ok(_) => if draft.count != 1 {
                Some(
                    corruption(
                        EntityKind::Account,
                        hyphenated(record.id.0),
                        "new account must contain exactly one event"@,
                    ),
                )
            } else {
                encoding_fault(draft.encoded, at)
            },
        },
    }
}

/// What was encoded without a fault.
pub(crate) struct Ready {
    pub(crate) payload: String,
    pub(crate) event_types: Vec<String>,
    pub(crate) event_payloads: Vec<String>,
    pub(crate) timestamp: String,
    pub(crate) recorded_at: Timestamp,
}

impl Ready {
    pub(crate) open spec fn of(self, encoded: Encoded, at: (i64, u32)) -> bool {
        &&& encoded.payload == Ok::<String, String>(self.payload)
        &&& encoded.event_payloads == Ok::<Vec<String>, String>(self.event_payloads)
        &&& encoded.event_types == self.event_types
        &&& self.timestamp@ == time_text(at)
        &&& time_read(self.timestamp@) == Ok::<(i64, u32), RepositoryFailure>(
            self.recorded_at.at(),
        )
        &&& in_written_years(at.0) ==> self.recorded_at.at() == (at.0, whole_micros(at.1))
    }
}

pub(crate) fn make_ready(encoded: Encoded, recorded_at: Timestamp) -> (r: Result<Ready, RepositoryError>)
    ensures
        match r {
            Ok(ready) => encoding_fault(encoded, recorded_at.at()) is None && ready.of(
                encoded,
                recorded_at.at(),
            ),
            Err(error) => encoding_fault(encoded, recorded_at.at()) == Some(error@),
        },
        in_written_years(recorded_at.at().0) ==> time_read(time_text(recorded_at.at())) is Ok,
{
    let timestamp = encode_time(recorded_at);
    match encoded.payload {
        Err(reason) => Err(codec(reason)),
        Ok(payload) => match encoded.event_payloads {
            Err(reason) => Err(codec(reason)),
            Ok(event_payloads) => match decode_time(timestamp.as_str()) {
                Err(error) => Err(error),
                Ok(recorded_at) => Ok(
                    Ready {
                        payload,
                        event_types: encoded.event_types,
                        event_payloads,
                        timestamp,
                        recorded_at,
                    },
                ),
            },
        },
    }
}

/// Admits the creation of a journal.
///
/// The instant it bears is the one that its stored text reads back as: within
/// the years 0 to 9999, `recorded_at` cut down to whole microseconds.
pub fn create_journal(draft: Draft<JournalRecord>, recorded_at: Timestamp) -> (r: Result<
    Creation,
    RepositoryError,
>)
    ensures
        match r {
            Ok(creation) => {
                &&& journal_draft_fault(draft, recorded_at.at()) is None
                &&& draft.first matches Some(FirstEvent::Initialized(record))
                &&& draft.encoded.payload matches Ok(payload)
                &&& draft.encoded.event_payloads matches Ok(event_payloads)
                &&& creates_journal(
                    creation.steps(),
                    record@,
                    payload@,
                    texts_of(draft.encoded.event_types@),
                    texts_of(event_payloads@),
                    time_text(recorded_at.at()),
                )
                &&& time_read(time_text(recorded_at.at())) == Ok::<(i64, u32), RepositoryFailure>(
                    creation.at(),
                )
                &&& in_written_years(recorded_at.at().0) ==> creation.at() == (
                    recorded_at.at().0,
                    whole_micros(recorded_at.at().1),
                )
            },
            Err(error) => journal_draft_fault(draft, recorded_at.at()) == Some(error@),
        },
        (initial(EntityKind::Journal, draft.id, draft.first) is Ok && draft.count == 1
            && draft.encoded.payload is Ok && draft.encoded.event_payloads is Ok
            && in_written_years(recorded_at.at().0)) ==> r is Ok,
{
    let record = match require_initial(EntityKind::Journal, draft.id, draft.first) {
        Err(error) => return Err(error),
        Ok(record) => record,
    };
    let id = encode_id(record.id.0);
    if draft.count != 1 {
        return Err(
            corrupt(
                EntityKind::Journal,
                id.as_str(),
                "new journal must contain exactly one event",
            ),
        );
    }
    let ready = match make_ready(draft.encoded, recorded_at) {
        Err(error) => return Err(error),
        Ok(ready) => ready,
    };
    let mut steps: VecDeque<Step<RepositoryCheck>> = VecDeque::new();
    if let Some(code) = &record.code {
        steps.push_back(
            identity_step(
                JOURNAL_CODE_TAKEN,
                EntityKind::Journal,
                id.as_str(),
                "code",
                code.as_str(),
            ),
        );
    }
    let params = vec![
        text_param(id.as_str()),
        text_param(record.name.as_str()),
        text_param(encode_status(record.status)),
        text_param(ready.payload.as_str()),
        text_param(ready.timestamp.as_str()),
    ];
    proof {
        assert(params_of(params@) =~= seq![
            Param::Text(id@),
            Param::Text(record.name@),
            Param::Text(status_text(record.status)),
            Param::Text(ready.payload@),
            Param::Text(ready.timestamp@),
        ]);
    }
    steps.push_back(
        Step::Run {
            statement: execute(INSERT_JOURNAL, params),
            check: RepositoryCheck::JournalInserted { id: id.clone() },
        },
    );
    let ghost head = steps@;
    let steps = insert_events(
        steps,
        EntityKind::Journal,
        id.as_str(),
        0,
        &ready.event_types,
        &ready.event_payloads,
        ready.timestamp.as_str(),
    );
    proof {
        assert(forall|i: int| 0 <= i < head.len() ==> steps@.take(head.len() as int)[i] == steps@[i]);
    }
    Ok(Creation { steps, recorded_at: ready.recorded_at })
}

/// Admits the creation of an account.
///
/// The instant it bears is the one that its stored text reads back as: within
/// the years 0 to 9999, `recorded_at` cut down to whole microseconds.
pub fn create_account(draft: Draft<AccountRecord>, recorded_at: Timestamp) -> (r: Result<
    Creation,
    RepositoryError,
>)
    ensures
        match r {
            Ok(creation) => {
                &&& account_draft_fault(draft, recorded_at.at()) is None
                &&& draft.first matches Some(FirstEvent::Initialized(record))
                &&& draft.encoded.payload matches Ok(payload)
                &&& draft.encoded.event_payloads matches Ok(event_payloads)
                &&& creates_account(
                    creation.steps(),
                    record@,
                    payload@,
                    texts_of(draft.encoded.event_types@),
                    texts_of(event_payloads@),
                    time_text(recorded_at.at()),
                )
                &&& time_read(time_text(recorded_at.at())) == Ok::<(i64, u32), RepositoryFailure>(
                    creation.at(),
                )
                &&& in_written_years(recorded_at.at().0) ==> creation.at() == (
                    recorded_at.at().0,
                    whole_micros(recorded_at.at().1),
                )
            },
            Err(error) => account_draft_fault(draft, recorded_at.at()) == Some(error@),
        },
        (initial(EntityKind::Account, draft.id, draft.first) is Ok
            && !(draft.first matches Some(FirstEvent::Initialized(record)) && record.is_account_set)
            && draft.count == 1 && draft.encoded.payload is Ok && draft.encoded.event_payloads is Ok
            && in_written_years(recorded_at.at().0)) ==> r is Ok,
{
    let record = match require_initial(EntityKind::Account, draft.id, draft.first) {
        Err(error) => return Err(error),
        Ok(record) => record,
    };
    if let Err(error) = require_non_account_set(record.is_account_set) {
        return Err(error);
    }
    let id = encode_id(record.id.0);
    if draft.count != 1 {
        return Err(
            corrupt(
                EntityKind::Account,
                id.as_str(),
                "new account must contain exactly one event",
            ),
        );
    }
    let ready = match make_ready(draft.encoded, recorded_at) {
        Err(error) => return Err(error),
        Ok(ready) => ready,
    };
    let mut steps: VecDeque<Step<RepositoryCheck>> = VecDeque::new();
    steps.push_back(
        identity_step(
            ACCOUNT_CODE_TAKEN,
            EntityKind::Account,
            id.as_str(),
            "code",
            record.code.as_str(),
        ),
    );
    if let Some(external_id) = &record.external_id {
        steps.push_back(
            identity_step(
                ACCOUNT_EXTERNAL_ID_TAKEN,
                EntityKind::Account,
                id.as_str(),
                "external_id",
                external_id.as_str(),
            ),
        );
    }
    let params = vec![
        text_param(id.as_str()),
        text_param(record.code.as_str()),
        text_param(record.name.as_str()),
        text_param(encode_status(record.status)),
        text_param(ready.payload.as_str()),
        text_param(ready.timestamp.as_str()),
    ];
    proof {
        assert(params_of(params@) =~= seq![
            Param::Text(id@),
            Param::Text(record.code@),
            Param::Text(record.name@),
            Param::Text(status_text(record.status)),
            Param::Text(ready.payload@),
            Param::Text(ready.timestamp@),
        ]);
    }
    steps.push_back(
        Step::Run {
            statement: execute(INSERT_ACCOUNT, params),
            check: RepositoryCheck::AccountInserted { id: id.clone(), code: record.code.clone() },
        },
    );
    let ghost head = steps@;
    let steps = insert_events(
        steps,
        EntityKind::Account,
        id.as_str(),
        0,
        &ready.event_types,
        &ready.event_payloads,
        ready.timestamp.as_str(),
    );
    proof {
        assert(forall|i: int| 0 <= i < head.len() ==> steps@.take(head.len() as int)[i] == steps@[i]);
    }
    Ok(Creation { steps, recorded_at: ready.recorded_at })
}

} // verus!
