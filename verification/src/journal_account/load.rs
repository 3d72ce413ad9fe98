//! Reading an entity inside one read-only transaction.
//!
//! A [`Load`] says what it needs next and takes what it is told: replies of the
//! engine, the types that event payloads decode to, and the entity that the
//! events fold to. It closes its transaction whatever comes of it.
use crate::identity::hyphenated;
use crate::journal_account::codec::{encode_id, id_read, parse_id};
use crate::journal_account::entity::{Entity, Folded};
use crate::journal_account::error::{
    corrupt, corruption, EntityKind, RepositoryError, RepositoryFailure,
};
use crate::journal_account::expect::engine_refusal;
use crate::journal_account::finish::{closed, finish_read, outcome_of};
use crate::journal_account::record::{AccountRecord, JournalRecord};
use crate::journal_account::stored::{
    ask_events, ask_projection, engine_error, events_of, events_question, events_read,
    load_projection, load_raw_events, projection_question, projection_read, require_event_type,
    type_verdict, EventFacts, Projection, ProjectionFacts, RawEvent,
};
use crate::primitives::{AccountId, JournalId};
use crate::storage::engine::{
    first_row, first_row_of, params_of, query_first, text_at, text_param, Asked, Param, Reply,
    RowsWanted, Statement, TransactionBehavior,
};
use crate::storage::scope::acknowledged;
use crate::text::{debug_form, debug_text, join3};
use std::marker::PhantomData;
use vstd::prelude::*;
use vstd::string::*;

verus! {

/// Finds a journal by its code.
pub const JOURNAL_BY_CODE: &'static str =
    "SELECT id FROM cala_journals WHERE json_extract(payload, '$.code') = ?1 LIMIT 1";

/// Finds an account by its code.
pub const ACCOUNT_BY_CODE: &'static str = "SELECT id FROM cala_accounts WHERE code = ?1 LIMIT 1";

/// Finds an account by its external identifier.
pub const ACCOUNT_BY_EXTERNAL_ID: &'static str =
    "SELECT id FROM cala_accounts WHERE json_extract(payload, '$.external_id') = ?1 LIMIT 1";

/// What identifies the entity that is read.
#[derive(Debug)]
pub enum Wanted {
    /// Its identifier.
    Id(u128),
    /// Another identity, under which `sql` finds the identifier.
    Identity { sql: &'static str, field: &'static str, value: String },
}

/// What identifies the entity that is read, over what it says.
pub enum Sought {
    Id(u128),
    Identity { sql: Seq<char>, field: Seq<char>, value: Seq<char> },
}

impl View for Wanted {
    type V = Sought;

    open spec fn view(&self) -> Sought {
        match self {
            Wanted::Id(id) => Sought::Id(*id),
            Wanted::Identity { sql, field, value } => Sought::Identity {
                sql: sql@,
                field: field@,
                value: value@,
            },
        }
    }
}

/// What a load is told.
#[derive(Debug)]
pub enum Told<R> {
    /// The engine's reply to a request.
    Replied(Reply),
    /// The type that the payload of an event decodes to, or why it does not.
    Decoded(Result<String, String>),
    /// The entity that the events fold to, or why they do not. No events fold
    /// to nothing.
    Folded(Result<Option<Folded<R>>, String>),
}

/// What a load needs next.
#[derive(Debug)]
pub enum LoadRequest {
    /// Begins a transaction.
    Begin(TransactionBehavior),
    /// Asks a question inside it.
    Ask(Statement),
    /// Decodes the payload of an event.
    Decode(String),
    /// Folds the events of the entity.
    Fold(u128),
    /// Closes the transaction.
    Close,
    /// Nothing more.
    Stop,
}

/// What a load needs next, over what it says.
pub enum LoadNeed {
    Begin(TransactionBehavior),
    Ask(Asked),
    Decode(Seq<char>),
    Fold(u128),
    Close,
    Stop,
}

impl View for LoadRequest {
    type V = LoadNeed;

    open spec fn view(&self) -> LoadNeed {
        match self {
            LoadRequest::Begin(behavior) => LoadNeed::Begin(*behavior),
            LoadRequest::Ask(statement) => LoadNeed::Ask(statement@),
            LoadRequest::Decode(payload) => LoadNeed::Decode(payload@),
            LoadRequest::Fold(id) => LoadNeed::Fold(*id),
            LoadRequest::Close => LoadNeed::Close,
            LoadRequest::Stop => LoadNeed::Stop,
        }
    }
}

/// Where a load stands.
pub enum LoadState {
    /// Its transaction is to begin.
    Opening(Sought),
    /// The identifier is looked up.
    Identifying { sql: Seq<char>, field: Seq<char>, value: Seq<char> },
    /// The projection is read.
    Projecting(u128),
    /// The events are read.
    Streaming(u128, ProjectionFacts),
    /// The event with this index is decoded; those before it were.
    Decoding(u128, ProjectionFacts, Seq<EventFacts>, int),
    /// The events are folded.
    Folding(u128, ProjectionFacts, Seq<EventFacts>),
    /// The transaction is closed with this outcome.
    Closing(Result<(), RepositoryFailure>),
    /// The load has ended with this result.
    Closed(Result<(), RepositoryFailure>),
}

/// The identifier that a reply gives for an identity, or why it gives none.
pub open spec fn found_id(
    reply: Reply,
    entity_kind: EntityKind,
    field: Seq<char>,
    value: Seq<char>,
) -> Result<u128, RepositoryFailure> {
    match first_row_of(reply) {
        Err(error) => Err(engine_refusal(error)),
        Ok(None) => Err(
            RepositoryFailure::NotFound { entity_kind, id: field + "="@ + debug_form(value) },
        ),
        Ok(Some(row)) => match text_at(row, 0) {
            Err(error) => Err(engine_refusal(error)),
            Ok(text) => id_read(text, entity_kind),
        },
    }
}

/// Takes the identifier that a reply gives for an identity.
pub fn find_one_id(
    reply: &Reply,
    entity_kind: EntityKind,
    field: &'static str,
    value: &str,
) -> (r: Result<u128, RepositoryError>)
    ensures
        outcome_of(r) == found_id(*reply, entity_kind, field@, value@),
{
    match first_row(reply) {
        Err(error) => Err(engine_error(error)),
        Ok(None) => Err(
            RepositoryError::NotFound {
                entity_kind,
                id: join3(field, "=", debug_text(value).as_str()),
            },
        ),
        Ok(Some(row)) => match row.text(0) {
            Err(error) => Err(engine_error(error)),
            Ok(text) => parse_id(text.as_str(), entity_kind),
        },
    }
}

/// What is said of the entity that the events fold to.
pub open spec fn fold_verdict<R: Entity>(
    id: u128,
    projection: ProjectionFacts,
    folded: Result<Option<Folded<R>>, String>,
) -> Result<(), RepositoryFailure> {
    match folded {
        Err(reason) => Err(corruption(R::kind(), hyphenated(id), reason@)),
        Ok(None) => Err(corruption(R::kind(), hyphenated(id), "projection has no events"@)),
        Ok(Some(entity)) => R::agreement(entity, projection),
    }
}

/// Where a load stands once `n` events were decoded.
pub open spec fn decoding(
    id: u128,
    projection: ProjectionFacts,
    events: Seq<EventFacts>,
    n: int,
) -> LoadState {
    if n < events.len() {
        LoadState::Decoding(id, projection, events, n)
    } else {
        LoadState::Folding(id, projection, events)
    }
}

/// Where a load goes when it is told something. What answers no question of
/// its own leaves it where it stands.
pub open spec fn load_next<R: Entity>(state: LoadState, told: Told<R>) -> LoadState {
    match (state, told) {
        (LoadState::Opening(sought), Told::Replied(reply)) => match reply {
            Err(error) => LoadState::Closed(Err(engine_refusal(error@))),
            Ok(_) => match sought {
                Sought::Id(id) => LoadState::Projecting(id),
                Sought::Identity { sql, field, value } => LoadState::Identifying {
                    sql,
                    field,
                    value,
                },
            },
        },
        (LoadState::Identifying { sql, field, value }, Told::Replied(reply)) => match found_id(
            reply,
            R::kind(),
            field,
            value,
        ) {
            Err(failure) => LoadState::Closing(Err(failure)),
            Ok(id) => LoadState::Projecting(id),
        },
        (LoadState::Projecting(id), Told::Replied(reply)) => match projection_read(
            reply,
            R::kind(),
            hyphenated(id),
        ) {
            Err(failure) => LoadState::Closing(Err(failure)),
            Ok(projection) => LoadState::Streaming(id, projection),
        },
        (LoadState::Streaming(id, projection), Told::Replied(reply)) => match events_read(
            reply,
            R::kind(),
            hyphenated(id),
            projection.version,
        ) {
            Err(failure) => LoadState::Closing(Err(failure)),
            Ok(events) => decoding(id, projection, events, 0),
        },
        (LoadState::Decoding(id, projection, events, n), Told::Decoded(decoded)) =>
            match type_verdict(R::kind(), hyphenated(id), events[n], decoded) {
                Err(failure) => LoadState::Closing(Err(failure)),
                Ok(_) => decoding(id, projection, events, n + 1),
            },
        (LoadState::Folding(id, projection, events), Told::Folded(folded)) => LoadState::Closing(
            fold_verdict(id, projection, folded),
        ),
        (LoadState::Closing(outcome), Told::Replied(reply)) => LoadState::Closed(
            closed(outcome, acknowledged(reply)),
        ),
        _ => state,
    }
}

/// What a load needs where it stands.
pub open spec fn load_need(entity_kind: EntityKind, state: LoadState) -> LoadNeed {
    match state {
        LoadState::Opening(_) => LoadNeed::Begin(TransactionBehavior::Deferred),
        LoadState::Identifying { sql, field, value } => LoadNeed::Ask(
            Asked::Query(sql, seq![Param::Text(value)], RowsWanted::First),
        ),
        LoadState::Projecting(id) => LoadNeed::Ask(projection_question(entity_kind, hyphenated(id))),
        LoadState::Streaming(id, _) => LoadNeed::Ask(events_question(entity_kind, hyphenated(id))),
        LoadState::Decoding(_, _, events, n) => LoadNeed::Decode(events[n].payload),
        LoadState::Folding(id, _, _) => LoadNeed::Fold(id),
        LoadState::Closing(_) => LoadNeed::Close,
        LoadState::Closed(_) => LoadNeed::Stop,
    }
}

enum LoadPhase {
    Opening(Wanted),
    Identifying { sql: &'static str, field: &'static str, value: String },
    Projecting(u128),
    Streaming(u128, Projection),
    Decoding(u128, Projection, Vec<RawEvent>, usize),
    Folding(u128, Projection, Vec<RawEvent>),
    Closing(Result<(), RepositoryError>),
    Closed(Result<(), RepositoryError>),
}

/// An entity that is being read.
pub struct Load<R: Entity> {
    phase: LoadPhase,
    entity: PhantomData<R>,
}

impl<R: Entity> Load<R> {
    #[verifier::type_invariant]
    closed spec fn inv(self) -> bool {
        self.phase matches LoadPhase::Decoding(_, _, events, n) ==> n < events@.len()
    }

    /// Where the load stands.
    pub closed spec fn state(self) -> LoadState {
        match self.phase {
            LoadPhase::Opening(wanted) => LoadState::Opening(wanted@),
            LoadPhase::Identifying { sql, field, value } => LoadState::Identifying {
                sql: sql@,
                field: field@,
                value: value@,
            },
            LoadPhase::Projecting(id) => LoadState::Projecting(id),
            LoadPhase::Streaming(id, projection) => LoadState::Streaming(id, projection@),
            LoadPhase::Decoding(id, projection, events, n) => LoadState::Decoding(
                id,
                projection@,
                events_of(events@),
                n as int,
            ),
            LoadPhase::Folding(id, projection, events) => LoadState::Folding(
                id,
                projection@,
                events_of(events@),
            ),
            LoadPhase::Closing(outcome) => LoadState::Closing(outcome_of(outcome)),
            LoadPhase::Closed(result) => LoadState::Closed(outcome_of(result)),
        }
    }

    fn at(phase: LoadPhase) -> (r: Load<R>)
        requires
            phase matches LoadPhase::Decoding(_, _, events, n) ==> n < events@.len(),
        ensures
            r.phase == phase,
    {
        Load { phase, entity: PhantomData }
    }

    fn begin(wanted: Wanted) -> (r: Load<R>)
        ensures
            r.state() == LoadState::Opening(wanted@),
    {
        Load::at(LoadPhase::Opening(wanted))
    }

    fn decode(id: u128, projection: Projection, events: Vec<RawEvent>, n: usize) -> (r: Load<R>)
        ensures
            r.state() == decoding(id, projection@, events_of(events@), n as int),
    {
        if n < events.len() {
            Load::at(LoadPhase::Decoding(id, projection, events, n))
        } else {
            Load::at(LoadPhase::Folding(id, projection, events))
        }
    }

    /// What the load needs next.
    pub fn request(&self) -> (r: LoadRequest)
        ensures
            r@ == load_need(R::kind(), self.state()),
    {
        proof {
            use_type_invariant(self);
        }
        let entity_kind = R::entity_kind();
        match &self.phase {
            LoadPhase::Opening(_) => LoadRequest::Begin(TransactionBehavior::Deferred),
            LoadPhase::Identifying { sql, field: _, value } => {
                let params = vec![text_param(value.as_str())];
                proof {
                    assert(params_of(params@) =~= seq![Param::Text(value@)]);
                }
                LoadRequest::Ask(query_first(sql, params))
            },
            LoadPhase::Projecting(id) => LoadRequest::Ask(
                ask_projection(entity_kind, encode_id(*id).as_str()),
            ),
            LoadPhase::Streaming(id, _) => LoadRequest::Ask(
                ask_events(entity_kind, encode_id(*id).as_str()),
            ),
            LoadPhase::Decoding(_, _, events, n) => LoadRequest::Decode(
                events[*n].payload.clone(),
            ),
            LoadPhase::Folding(id, _, _) => LoadRequest::Fold(*id),
            LoadPhase::Closing(_) => LoadRequest::Close,
            LoadPhase::Closed(_) => LoadRequest::Stop,
        }
    }

    /// The events that are to be folded.
    pub fn events(&self) -> (r: Option<&Vec<RawEvent>>)
        ensures
            match self.state() {
                LoadState::Folding(_, _, events) => r matches Some(found) && events_of(found@)
                    == events,
                _ => r is None,
            },
    {
        match &self.phase {
            LoadPhase::Folding(_, _, events) => Some(events),
            _ => None,
        }
    }

    fn take_reply(self, reply: Reply) -> (r: Load<R>)
        ensures
            r.state() == load_next(self.state(), Told::<R>::Replied(reply)),
    {
        proof {
            use_type_invariant(&self);
        }
        let entity_kind = R::entity_kind();
        match self.phase {
            LoadPhase::Opening(wanted) => match reply {
                Err(error) => Load::at(LoadPhase::Closed(Err(engine_error(error)))),
                Ok(_) => match wanted {
                    Wanted::Id(id) => Load::at(LoadPhase::Projecting(id)),
                    Wanted::Identity { sql, field, value } => Load::at(
                        LoadPhase::Identifying { sql, field, value },
                    ),
                },
            },
            LoadPhase::Identifying { sql: _, field, value } => match find_one_id(
                &reply,
                entity_kind,
                field,
                value.as_str(),
            ) {
                Err(error) => Load::at(LoadPhase::Closing(Err(error))),
                Ok(id) => Load::at(LoadPhase::Projecting(id)),
            },
            LoadPhase::Projecting(id) => match load_projection(
                &reply,
                entity_kind,
                encode_id(id).as_str(),
            ) {
                Err(error) => Load::at(LoadPhase::Closing(Err(error))),
                Ok(projection) => Load::at(LoadPhase::Streaming(id, projection)),
            },
            LoadPhase::Streaming(id, projection) => match load_raw_events(
                &reply,
                entity_kind,
                encode_id(id).as_str(),
                projection.version,
            ) {
                Err(error) => Load::at(LoadPhase::Closing(Err(error))),
                Ok(events) => Load::decode(id, projection, events, 0),
            },
            LoadPhase::Closing(outcome) => {
                let close = match reply {
                    Ok(_) => Ok(()),
                    Err(error) => Err(error),
                };
                Load::at(LoadPhase::Closed(finish_read(outcome, close)))
            },
            phase => Load::at(phase),
        }
    }

    /// Takes what the load is told.
    pub fn step(self, told: Told<R>) -> (r: Load<R>)
        ensures
            r.state() == load_next(self.state(), told),
    {
        proof {
            use_type_invariant(&self);
        }
        match told {
            Told::Replied(reply) => self.take_reply(reply),
            Told::Decoded(decoded) => match self.phase {
                LoadPhase::Decoding(id, projection, events, n) => {
                    let count: usize = events.len();
                    assert(n < count);
                    match require_event_type(
                        R::entity_kind(),
                        encode_id(id).as_str(),
                        &events[n],
                        decoded,
                    ) {
                        Err(error) => Load::at(LoadPhase::Closing(Err(error))),
                        Ok(_) => Load::decode(id, projection, events, n + 1),
                    }
                },
                phase => Load::at(phase),
            },
            Told::Folded(folded) => match self.phase {
                LoadPhase::Folding(id, projection, events) => {
                    let outcome = match folded {
                        Err(reason) => Err(
                            corrupt(R::entity_kind(), encode_id(id).as_str(), reason.as_str()),
                        ),
                        Ok(None) => Err(
                            corrupt(
                                R::entity_kind(),
                                encode_id(id).as_str(),
                                "projection has no events",
                            ),
                        ),
                        Ok(Some(entity)) => R::validate_projection(&entity, &projection),
                    };
                    Load::at(LoadPhase::Closing(outcome))
                },
                phase => Load::at(phase),
            },
        }
    }

    /// The result of a load that has ended.
    pub fn result(self) -> (r: Option<Result<(), RepositoryError>>)
        ensures
            match self.state() {
                LoadState::Closed(result) => r matches Some(found) && outcome_of(found) == result,
                _ => r is None,
            },
    {
        match self.phase {
            LoadPhase::Closed(result) => Some(result),
            _ => None,
        }
    }
}

/// Reads the journal with an identifier.
pub fn find_journal(id: JournalId) -> (r: Load<JournalRecord>)
    ensures
        r.state() == LoadState::Opening(Sought::Id(id.0)),
{
    Load::begin(Wanted::Id(id.0))
}

/// Reads the journal with a code.
pub fn find_journal_by_code(code: &str) -> (r: Load<JournalRecord>)
    ensures
        r.state() == LoadState::Opening(
            Sought::Identity { sql: JOURNAL_BY_CODE@, field: "code"@, value: code@ },
        ),
{
    Load::begin(
        Wanted::Identity { sql: JOURNAL_BY_CODE, field: "code", value: code.to_owned() },
    )
}

/// Reads the account with an identifier.
pub fn find_account(id: AccountId) -> (r: Load<AccountRecord>)
    ensures
        r.state() == LoadState::Opening(Sought::Id(id.0)),
{
    Load::begin(Wanted::Id(id.0))
}

/// Reads the account with a code.
pub fn find_account_by_code(code: &str) -> (r: Load<AccountRecord>)
    ensures
        r.state() == LoadState::Opening(
            Sought::Identity { sql: ACCOUNT_BY_CODE@, field: "code"@, value: code@ },
        ),
{
    Load::begin(
        Wanted::Identity { sql: ACCOUNT_BY_CODE, field: "code", value: code.to_owned() },
    )
}

/// Reads the account with an external identifier.
pub fn find_account_by_external_id(external_id: &str) -> (r: Load<AccountRecord>)
    ensures
        r.state() == LoadState::Opening(
            Sought::Identity {
                sql: ACCOUNT_BY_EXTERNAL_ID@,
                field: "external_id"@,
                value: external_id@,
            },
        ),
{
    Load::begin(
        Wanted::Identity {
            sql: ACCOUNT_BY_EXTERNAL_ID,
            field: "external_id",
            value: external_id.to_owned(),
        },
    )
}

} // verus!
