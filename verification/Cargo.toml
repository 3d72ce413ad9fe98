[package]
name = "cala_ledger"
version = "0.25.0"
edition = "2021"
publish = false

[dependencies]
chrono = { version = "=0.4.45", default-features = false, features = ["alloc", "std", "serde"] }
es-entity = { version = "0.19", default-features = false }
rusty-money = { version = "=0.4.2", features = ["iso", "crypto"] }
schemars = "=1.2.3"
serde = { version = "=1.0.229", features = ["derive"] }
serde_json = "=1.0.154"
sha2 = "=0.10.9"
sqlx = { version = "=0.8.6", default-features = false, features = ["derive"] }
strum = { version = "=0.28.0", features = ["derive"] }
thiserror = "=2.0.21"
turso = { version = "=0.8.0-pre.7", default-features = false }

[dev-dependencies]
tempfile = "3"
