[package]
name = "event_service"
version = "0.1.0"
edition = "2021"
publish = false

[dependencies]
rand = "0.8"
sha2 = "0.10"
hex = "0.4"
serde = { version = "1", features = ["derive"] }
serde_json = "1"
uuid = { version = "1", features = ["v7", "serde"] }
chrono = { version = "0.4", features = ["serde"] }
axum = "0.8"
sea-orm = { version = "1", default-features = false, features = ["macros", "with-json", "with-chrono", "with-uuid"] }
sea-orm-migration = { version = "1", default-features = false }
async-trait = "0.1"
tracing = "0.1"
rust_xlsxwriter = "*"
