//! Identity of the core schema and of the migrations a database records.
use crate::digest::{fingerprint_of, sha256, text_fingerprint};
use crate::storage::error::{StorageError, StorageFailure};
use crate::text::same_text;
use vstd::prelude::*;
use vstd::string::*;
use vstd::utf8::encode_utf8;

verus! {

/// Version under which the core schema is recorded.
pub const CORE_SCHEMA_VERSION: i64 = 1;

/// Name under which the core schema is recorded.
pub const CORE_SCHEMA_NAME: &'static str = "norn-cala-core";

/// Fingerprint of the admitted core schema.
///
/// Updated whenever the schema changes. A text with any other fingerprint is
/// refused before a database is opened.
pub const CORE_SCHEMA_FINGERPRINT: &'static str =
    "sha256:60949280dc976506914f7872957b883f54e4908fe049bb5626fddf6e059b75fc";

/// The fingerprint of a schema text.
pub open spec fn schema_fingerprint(core_schema: Seq<char>) -> Seq<char> {
    fingerprint_of(sha256(encode_utf8(core_schema)))
}

/// Computes the fingerprint of a schema text.
pub fn embedded_schema_fingerprint(core_schema: &str) -> (r: String)
    ensures
        r@ == schema_fingerprint(core_schema@),
{
    text_fingerprint(core_schema)
}

/// Admits a computed fingerprint if it is that of the core schema.
pub fn require_fingerprint(computed: String) -> (r: Result<(), StorageError>)
    ensures
        match r {
            Ok(_) => computed@ == CORE_SCHEMA_FINGERPRINT@,
            Err(error) => {
                &&& computed@ != CORE_SCHEMA_FINGERPRINT@
                &&& error@ == StorageFailure::EmbeddedSchemaFingerprint {
                    expected: CORE_SCHEMA_FINGERPRINT@,
                    computed: computed@,
                }
            },
        },
{
    if same_text(computed.as_str(), CORE_SCHEMA_FINGERPRINT) {
        Ok(())
    } else {
        Err(
            StorageError::EmbeddedSchemaFingerprint { expected: CORE_SCHEMA_FINGERPRINT, computed },
        )
    }
}

/// Admits a schema text if its fingerprint is that of the core schema.
pub fn require_embedded_schema_fingerprint(core_schema: &str) -> (r: Result<(), StorageError>)
    ensures
        match r {
            Ok(_) => schema_fingerprint(core_schema@) == CORE_SCHEMA_FINGERPRINT@,
            Err(error) => {
                &&& schema_fingerprint(core_schema@) != CORE_SCHEMA_FINGERPRINT@
                &&& error@ == StorageFailure::EmbeddedSchemaFingerprint {
                    expected: CORE_SCHEMA_FINGERPRINT@,
                    computed: schema_fingerprint(core_schema@),
                }
            },
        },
{
    require_fingerprint(embedded_schema_fingerprint(core_schema))
}

/// A schema text whose fingerprint was checked.
pub struct CoreSchema {
    text: String,
}

impl CoreSchema {
    #[verifier::type_invariant]
    closed spec fn inv(self) -> bool {
        schema_fingerprint(self.text@) == CORE_SCHEMA_FINGERPRINT@
    }

    /// The text of the schema.
    pub closed spec fn text(self) -> Seq<char> {
        self.text@
    }

    /// Checks the fingerprint of a schema text.
    pub fn checked(text: String) -> (r: Result<CoreSchema, StorageError>)
        ensures
            match r {
                Ok(schema) => schema.text() == text@ && schema_fingerprint(text@)
                    == CORE_SCHEMA_FINGERPRINT@,
                Err(error) => {
                    &&& schema_fingerprint(text@) != CORE_SCHEMA_FINGERPRINT@
                    &&& error@ == StorageFailure::EmbeddedSchemaFingerprint {
                        expected: CORE_SCHEMA_FINGERPRINT@,
                        computed: schema_fingerprint(text@),
                    }
                },
            },
    {
        match require_embedded_schema_fingerprint(text.as_str()) {
            Ok(_) => Ok(CoreSchema { text }),
            Err(error) => Err(error),
        }
    }

    /// The text of the schema, whose fingerprint is the admitted one.
    pub fn as_str(&self) -> (r: &str)
        ensures
            r@ == self.text(),
            schema_fingerprint(r@) == CORE_SCHEMA_FINGERPRINT@,
    {
        proof {
            use_type_invariant(self);
        }
        self.text.as_str()
    }
}

/// What is said of a recorded migration: it must bear the name and the
/// fingerprint of the core schema.
pub open spec fn migration_identity(
    version: i64,
    name: Seq<char>,
    fingerprint: Seq<char>,
) -> Result<(), StorageFailure> {
    if name != CORE_SCHEMA_NAME@ {
        Err(
            StorageFailure::MigrationName {
                version,
                expected: CORE_SCHEMA_NAME@,
                found: name,
            },
        )
    } else if fingerprint != CORE_SCHEMA_FINGERPRINT@ {
        Err(
            StorageFailure::MigrationFingerprint {
                version,
                expected: CORE_SCHEMA_FINGERPRINT@,
                found: fingerprint,
            },
        )
    } else {
        Ok(())
    }
}

/// Checks the name and the fingerprint of a recorded migration.
pub fn validate_migration_identity(
    version: i64,
    found_name: String,
    found_fingerprint: String,
) -> (r: Result<(), StorageError>)
    ensures
        match r {
            Ok(_) => migration_identity(version, found_name@, found_fingerprint@) is Ok,
            Err(error) => migration_identity(version, found_name@, found_fingerprint@) == Err::<
                (),
                StorageFailure,
            >(error@),
        },
{
    if !same_text(found_name.as_str(), CORE_SCHEMA_NAME) {
        return Err(
            StorageError::MigrationName { version, expected: CORE_SCHEMA_NAME, found: found_name },
        );
    }
    if !same_text(found_fingerprint.as_str(), CORE_SCHEMA_FINGERPRINT) {
        return Err(
            StorageError::MigrationFingerprint {
                version,
                expected: CORE_SCHEMA_FINGERPRINT,
                found: found_fingerprint,
            },
        );
    }
    Ok(())
}

} // verus!
