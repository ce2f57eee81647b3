[package]
name = "fediplace"
version = "0.1.0"
edition = "2021"
publish = false

[dependencies]
url = { version = "2", features = ["serde"] }
serde = { version = "1", features = ["derive"] }
serde_json = "1"
rocket = { version = "0.5", features = ["json"] }
rocket_sync_db_pools = { version = "0.1", features = ["diesel_sqlite_pool"] }
diesel = { version = "2", features = ["sqlite"] }
reqwest = { version = "0.11", default-features = false, features = ["json"] }
