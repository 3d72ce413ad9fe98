//! How values of the ledger are written in the store and read from it.
use crate::identity::{hyphenated, uuid_parse, uuid_parsed, uuid_text};
use crate::journal_account::error::{
    corrupt, corruption, kind_name, EntityKind, RepositoryError, RepositoryFailure,
};
use crate::primitives::Status;
use crate::text::{debug_form, debug_text, decimal, decimal_signed, decimal_unsigned, join2};
use crate::time::{in_written_years, rfc3339_instant, rfc3339_micros, whole_micros, Timestamp};
use vstd::prelude::*;
use vstd::string::*;

verus! {

/// The stored text of a status.
pub open spec fn status_text(status: Status) -> Seq<char> {
    match status {
        Status::Active => "active"@,
        Status::Locked => "locked"@,
    }
}

/// Writes a status.
pub fn encode_status(value: Status) -> (r: &'static str)
    ensures
        r@ == status_text(value),
{
    match value {
        Status::Active => "active",
        Status::Locked => "locked",
    }
}

/// Writes an instant with whole microseconds.
pub fn encode_time(value: Timestamp) -> (r: String)
    ensures
        r@ == rfc3339_micros(value.at().0, value.at().1),
        in_written_years(value.at().0) ==> rfc3339_instant(r@) == Ok::<(i64, u32), Seq<char>>(
            (value.at().0, whole_micros(value.at().1)),
        ),
{
    value.to_rfc3339()
}

/// What reading an instant from stored text gives.
pub open spec fn time_read(value: Seq<char>) -> Result<(i64, u32), RepositoryFailure> {
    match rfc3339_instant(value) {
        Ok(at) => Ok(at),
        Err(reason) => Err(
            RepositoryFailure::Codec(
                "invalid UTC timestamp "@ + debug_form(value) + ": "@ + reason,
            ),
        ),
    }
}

/// Reads an instant.
pub fn decode_time(value: &str) -> (r: Result<Timestamp, RepositoryError>)
    ensures
        match r {
            Ok(t) => time_read(value@) == Ok::<(i64, u32), RepositoryFailure>(t.at()),
            Err(error) => time_read(value@) == Err::<(i64, u32), RepositoryFailure>(error@),
        },
{
    match Timestamp::from_rfc3339(value) {
        Ok(t) => Ok(t),
        Err(reason) => {
            let mut out = join2("invalid UTC timestamp ", debug_text(value).as_str());
            out.append(": ");
            out.append(reason.as_str());
            Err(RepositoryError::Codec(out))
        },
    }
}

/// What reading the version of a projection gives.
pub open spec fn version_read(
    value: i64,
    entity_kind: EntityKind,
    id: Seq<char>,
) -> Result<u32, RepositoryFailure> {
    if 0 <= value <= u32::MAX {
        Ok(value as u32)
    } else {
        Err(corruption(entity_kind, id, "invalid projection version "@ + decimal(value as int)))
    }
}

/// Reads the version of a projection.
pub fn decode_version(
    value: i64,
    entity_kind: EntityKind,
    id: &str,
) -> (r: Result<u32, RepositoryError>)
    ensures
        match r {
            Ok(version) => version_read(value, entity_kind, id@) == Ok::<u32, RepositoryFailure>(
                version,
            ),
            Err(error) => version_read(value, entity_kind, id@) == Err::<u32, RepositoryFailure>(
                error@,
            ),
        },
{
    if 0 <= value && value <= u32::MAX as i64 {
        Ok(value as u32)
    } else {
        Err(
            corrupt(
                entity_kind,
                id,
                join2("invalid projection version ", decimal_signed(value).as_str()).as_str(),
            ),
        )
    }
}

/// Writes an identifier.
pub fn encode_id(id: u128) -> (r: String)
    ensures
        r@ == hyphenated(id),
        uuid_parsed(r@) == Ok::<u128, Seq<char>>(id),
{
    uuid_text(id)
}

/// What reading an identifier gives.
pub open spec fn id_read(value: Seq<char>, entity_kind: EntityKind) -> Result<
    u128,
    RepositoryFailure,
> {
    match uuid_parsed(value) {
        Ok(id) => Ok(id),
        Err(reason) => Err(
            RepositoryFailure::Codec(
                "invalid "@ + kind_name(entity_kind) + " id "@ + debug_form(value) + ": "@ + reason,
            ),
        ),
    }
}

/// Reads an identifier.
pub fn parse_id(value: &str, entity_kind: EntityKind) -> (r: Result<u128, RepositoryError>)
    ensures
        match r {
            Ok(id) => id_read(value@, entity_kind) == Ok::<u128, RepositoryFailure>(id),
            Err(error) => id_read(value@, entity_kind) == Err::<u128, RepositoryFailure>(error@),
        },
{
    match uuid_parse(value) {
        Ok(id) => Ok(id),
        Err(reason) => {
            let mut out = join2("invalid ", entity_kind.name());
            out.append(" id ");
            out.append(debug_text(value).as_str());
            out.append(": ");
            out.append(reason.as_str());
            Err(RepositoryError::Codec(out))
        },
    }
}

/// The identifier of an event: kind, entity and place in the stream.
pub open spec fn event_id(entity_kind: EntityKind, id: Seq<char>, sequence: int) -> Seq<char> {
    kind_name(entity_kind) + ":"@ + id + ":"@ + decimal(sequence)
}

/// Writes the identifier of an event.
pub fn encode_event_id(entity_kind: EntityKind, id: &str, sequence: u32) -> (r: String)
    ensures
        r@ == event_id(entity_kind, id@, sequence as int),
{
    let mut out = join2(entity_kind.name(), ":");
    out.append(id);
    out.append(":");
    out.append(decimal_unsigned(sequence as u64).as_str());
    out
}

/// Different statuses are stored as different texts.
pub proof fn law_status_texts_differ(a: Status, b: Status)
    ensures
        status_text(a) == status_text(b) <==> a == b,
{
    reveal_strlit("active");
    reveal_strlit("locked");
    assert("active"@[0] != "locked"@[0]);
}

} // verus!
