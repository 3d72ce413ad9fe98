//! Which creations and changes are admitted before the engine is asked anything.
use crate::journal_account::codec::encode_id;
use crate::journal_account::error::{EntityKind, RepositoryError};
use crate::journal_account::expect::RepositoryCheck;
use crate::journal_account::keeping::says_stale;
use crate::journal_account::persist::{persist_account, persist_journal, Change};
use crate::journal_account::record::{
    AccountRecord, Changed, Draft, Encoded, FirstEvent, JournalRecord,
};
use crate::journal_account::write::{create_account, create_journal, Creation};
use crate::storage::engine::TransactionBehavior;
use crate::storage::scope::{Request, Scope};
use crate::time::Timestamp;
use vstd::prelude::*;
use vstd::string::*;

verus! {

/// Whether `error` says that an entity is corrupt for this reason.
pub open spec fn says_corrupt(
    error: RepositoryError,
    entity_kind: EntityKind,
    id: Seq<char>,
    why: Seq<char>,
) -> bool {
    error matches RepositoryError::CorruptState { entity_kind: found, id: sought, reason } && found
        == entity_kind && sought@ == id && reason@ == why
}

/// Whether `error` says that a value could not be written or read for this
/// reason.
pub open spec fn says_codec(error: RepositoryError, why: Seq<char>) -> bool {
    error matches RepositoryError::Codec(reason) && reason@ == why
}

/// Whether an instant lies in the years 0 to 9999.
pub open spec fn four_digit_year(seconds: i64) -> bool {
    -62_167_219_200 <= seconds <= 253_402_300_799
}

/// Whether the values of an entity refuse to be stored, and the result says why.
pub open spec fn unwritten<T>(encoded: Encoded, r: Result<T, RepositoryError>) -> bool {
    match encoded.payload {
        Err(reason) => r matches Err(error) && says_codec(error, reason@),
        Ok(_) => match encoded.event_payloads {
            Err(reason) => r matches Err(error) && says_codec(error, reason@),
            Ok(_) => false,
        },
    }
}

/// Whether `stored` is the instant `at` cut down to whole microseconds.
pub open spec fn whole_microseconds(
    seconds: i64,
    nanos: u32,
    stored_seconds: i64,
    stored_nanos: u32,
) -> bool {
    stored_seconds == seconds && stored_nanos == nanos - nanos % 1000
}

/// A journal is admitted exactly if it has one new event, which initialises it
/// and its values can be written; within the years 0 to 9999 nothing else is
/// asked. It bears the instant of its creation, cut down to whole microseconds.
pub proof fn law_creation_of_journal_is_admitted(
    draft: Draft<JournalRecord>,
    at: Timestamp,
    seconds: i64,
    nanos: u32,
    id: String,
    own: String,
    r: Result<Creation, RepositoryError>,
    stored: Timestamp,
    stored_seconds: i64,
    stored_nanos: u32,
)
    requires
        call_ensures(Timestamp::seconds, (&at,), seconds),
        call_ensures(Timestamp::nanos, (&at,), nanos),
        call_ensures(encode_id, (draft.id,), id),
        draft.first matches Some(FirstEvent::Initialized(record)) ==> call_ensures(
            encode_id,
            (record.id.0,),
            own,
        ),
        call_ensures(create_journal, (draft, at), r),
        r matches Ok(creation) ==> call_ensures(Creation::recorded_at, (&creation,), stored),
        call_ensures(Timestamp::seconds, (&stored,), stored_seconds),
        call_ensures(Timestamp::nanos, (&stored,), stored_nanos),
    ensures
        match draft.first {
            None => r matches Err(error) && says_corrupt(
                error,
                EntityKind::Journal,
                id@,
                "missing initialized event"@,
            ),
            Some(FirstEvent::Updated) => r matches Err(error) && says_corrupt(
                error,
                EntityKind::Journal,
                id@,
                "first event is not initialized"@,
            ),
            Some(FirstEvent::Initialized(record)) => if draft.count != 1 {
                r matches Err(error) && says_corrupt(
                    error,
                    EntityKind::Journal,
                    own@,
                    "new journal must contain exactly one event"@,
                )
            } else if draft.encoded.payload is Err || draft.encoded.event_payloads is Err {
                unwritten(draft.encoded, r)
            } else {
                four_digit_year(seconds) ==> r is Ok && whole_microseconds(
                    seconds,
                    nanos,
                    stored_seconds,
                    stored_nanos,
                )
            },
        },
{
}

/// An account is admitted exactly if it has one new event, which initialises it
/// and makes it back no account set, and its values can be written; within the years 0 to 9999 nothing else is
/// asked. It bears the instant of its creation, cut down to whole microseconds.
pub proof fn law_creation_of_account_is_admitted(
    draft: Draft<AccountRecord>,
    at: Timestamp,
    seconds: i64,
    nanos: u32,
    id: String,
    own: String,
    r: Result<Creation, RepositoryError>,
    stored: Timestamp,
    stored_seconds: i64,
    stored_nanos: u32,
)
    requires
        call_ensures(Timestamp::seconds, (&at,), seconds),
        call_ensures(Timestamp::nanos, (&at,), nanos),
        call_ensures(encode_id, (draft.id,), id),
        draft.first matches Some(FirstEvent::Initialized(record)) ==> call_ensures(
            encode_id,
            (record.id.0,),
            own,
        ),
        call_ensures(create_account, (draft, at), r),
        r matches Ok(creation) ==> call_ensures(Creation::recorded_at, (&creation,), stored),
        call_ensures(Timestamp::seconds, (&stored,), stored_seconds),
        call_ensures(Timestamp::nanos, (&stored,), stored_nanos),
    ensures
        match draft.first {
            None => r matches Err(error) && says_corrupt(
                error,
                EntityKind::Account,
                id@,
                "missing initialized event"@,
            ),
            Some(FirstEvent::Updated) => r matches Err(error) && says_corrupt(
                error,
                EntityKind::Account,
                id@,
                "first event is not initialized"@,
            ),
            Some(FirstEvent::Initialized(record)) => if record.is_account_set {
                r matches Err(RepositoryError::AccountSetUnsupported)
            } else if draft.count != 1 {
                r matches Err(error) && says_corrupt(
                    error,
                    EntityKind::Account,
                    own@,
                    "new account must contain exactly one event"@,
                )
            } else if draft.encoded.payload is Err || draft.encoded.event_payloads is Err {
                unwritten(draft.encoded, r)
            } else {
                four_digit_year(seconds) ==> r is Ok && whole_microseconds(
                    seconds,
                    nanos,
                    stored_seconds,
                    stored_nanos,
                )
            },
        },
{
}

/// Changes of a journal are admitted exactly if it was read at the version that
/// counts its stored events and its values can be written. Without new events
/// the values do not count. They lead to the version that counts all events.
pub proof fn law_change_of_journal_is_admitted(
    journal: Changed<JournalRecord>,
    expected: u32,
    at: Timestamp,
    seconds: i64,
    nanos: u32,
    id: String,
    r: Result<Change, RepositoryError>,
    next: u32,
    stored: Option<Timestamp>,
)
    requires
        call_ensures(Timestamp::seconds, (&at,), seconds),
        call_ensures(Timestamp::nanos, (&at,), nanos),
        call_ensures(encode_id, (journal.id,), id),
        call_ensures(persist_journal, (journal, expected, at), r),
        r matches Ok(change) ==> call_ensures(Change::next_version, (&change,), next)
            && call_ensures(Change::recorded_at, (&change,), stored),
    ensures
        if journal.persisted > u32::MAX {
            r matches Err(error) && says_corrupt(
                error,
                EntityKind::Journal,
                id@,
                "persisted event count exceeds u32"@,
            )
        } else if journal.persisted != expected {
            r matches Err(error) && says_stale(
                error,
                EntityKind::Journal,
                id@,
                expected,
                journal.persisted as i64,
            )
        } else {
            match journal.encoded.event_payloads {
                Err(reason) => r matches Err(error) && says_codec(error, reason@),
                Ok(events) => if events@.len() > u32::MAX {
                    r matches Err(error) && says_codec(error, "journal event count exceeds u32"@)
                } else if expected + events@.len() > u32::MAX {
                    r matches Err(error) && says_codec(error, "journal version overflow"@)
                } else if events@.len() == 0 {
                    r is Ok && next == expected && stored is None
                } else if journal.encoded.payload is Err {
                    unwritten(journal.encoded, r)
                } else {
                    &&& r is Ok ==> next == expected + events@.len() && stored is Some
                    &&& four_digit_year(seconds) ==> r is Ok && (stored matches Some(t) && forall|
                        s: i64,
                        n: u32,
                    |
                        #![trigger whole_microseconds(seconds, nanos, s, n)]
                        call_ensures(Timestamp::seconds, (&t,), s) && call_ensures(
                            Timestamp::nanos,
                            (&t,),
                            n,
                        ) ==> whole_microseconds(seconds, nanos, s, n))
                },
            }
        },
{
    reveal_strlit("journal");
    reveal_strlit(" event count exceeds u32");
    reveal_strlit("journal event count exceeds u32");
    reveal_strlit(" version overflow");
    reveal_strlit("journal version overflow");
    assert("journal"@ + " event count exceeds u32"@ =~= "journal event count exceeds u32"@);
    assert("journal"@ + " version overflow"@ =~= "journal version overflow"@);
}

/// Changes of an account are admitted exactly if it was read at the version that
/// counts its stored events, it backs no account set and its values can be written. Without new events
/// the values do not count. They lead to the version that counts all events.
pub proof fn law_change_of_account_is_admitted(
    account: Changed<AccountRecord>,
    expected: u32,
    at: Timestamp,
    seconds: i64,
    nanos: u32,
    id: String,
    r: Result<Change, RepositoryError>,
    next: u32,
    stored: Option<Timestamp>,
)
    requires
        call_ensures(Timestamp::seconds, (&at,), seconds),
        call_ensures(Timestamp::nanos, (&at,), nanos),
        call_ensures(encode_id, (account.id,), id),
        call_ensures(persist_account, (account, expected, at), r),
        r matches Ok(change) ==> call_ensures(Change::next_version, (&change,), next)
            && call_ensures(Change::recorded_at, (&change,), stored),
    ensures
        if account.record.is_account_set {
            r matches Err(RepositoryError::AccountSetUnsupported)
        } else if account.persisted > u32::MAX {
            r matches Err(error) && says_corrupt(
                error,
                EntityKind::Account,
                id@,
                "persisted event count exceeds u32"@,
            )
        } else if account.persisted != expected {
            r matches Err(error) && says_stale(
                error,
                EntityKind::Account,
                id@,
                expected,
                account.persisted as i64,
            )
        } else {
            match account.encoded.event_payloads {
                Err(reason) => r matches Err(error) && says_codec(error, reason@),
                Ok(events) => if events@.len() > u32::MAX {
                    r matches Err(error) && says_codec(error, "account event count exceeds u32"@)
                } else if expected + events@.len() > u32::MAX {
                    r matches Err(error) && says_codec(error, "account version overflow"@)
                } else if events@.len() == 0 {
                    r is Ok && next == expected && stored is None
                } else if account.encoded.payload is Err {
                    unwritten(account.encoded, r)
                } else {
                    &&& r is Ok ==> next == expected + events@.len() && stored is Some
                    &&& four_digit_year(seconds) ==> r is Ok && (stored matches Some(t) && forall|
                        s: i64,
                        n: u32,
                    |
                        #![trigger whole_microseconds(seconds, nanos, s, n)]
                        call_ensures(Timestamp::seconds, (&t,), s) && call_ensures(
                            Timestamp::nanos,
                            (&t,),
                            n,
                        ) ==> whole_microseconds(seconds, nanos, s, n))
                },
            }
        },
{
    reveal_strlit("account");
    reveal_strlit(" event count exceeds u32");
    reveal_strlit("account event count exceeds u32");
    reveal_strlit(" version overflow");
    reveal_strlit("account version overflow");
    assert("account"@ + " event count exceeds u32"@ =~= "account event count exceeds u32"@);
    assert("account"@ + " version overflow"@ =~= "account version overflow"@);
}

/// A creation begins unless the entity does not follow from its events; then the
/// reason is reported. It begins with the lock that writes need.
pub proof fn law_unfolded_creation_does_not_begin(
    creation: Creation,
    folded: Result<(), String>,
    r: Result<
        (Scope<RepositoryCheck>, Request),
        RepositoryError,
    >,
)
    requires
        call_ensures(Creation::begin, (creation, folded), r),
    ensures
        match folded {
            Ok(_) => r matches Ok(begun) && begun.1 == Request::Begin(
                TransactionBehavior::Immediate,
            ),
            Err(reason) => r matches Err(error) && says_codec(error, reason@),
        },
{
}

} // verus!
