# cala_ledger

The verified core of a double-entry ledger: conserved units, values of the
expression language, and the storage of journals and accounts on an embedded
SQL engine.

- `src/currency.rs`, `src/primitives.rs`, `src/cel.rs`: units, identifiers and
  enumerations, and their coercion from and to expressions.
- `src/storage/`: what is asked of the engine and how its replies are judged.
  Opening, migration, feature probe and every write are sequences of judged
  statements inside explicitly ended transactions; `laws.rs` states what holds
  of every history of them.
- `src/journal_account/`: journals and accounts as a projection row and a stream
  of events. Writes are planned as statements, reads are decided step by step,
  and `laws.rs` states that what was written is read back.
- `app/`: performs the requests on the engine and serialises entities.
- `tests/`: decisions on concrete values, and the same on the real engine.

The text of the core schema is not part of the crate. It is handed in when a
database is opened and must have the fingerprint that `src/storage/schema.rs`
names.
