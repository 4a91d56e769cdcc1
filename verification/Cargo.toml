[package]
name = "navdata_interface"
version = "0.1.0"
edition = "2021"
publish = false

[dependencies]
regex = "1"
serde = { version = "1", features = ["derive"] }
serde_json = "1"
anyhow = "1"
rusqlite = { version = "*", features = ["bundled"] }
serde_rusqlite = "*"
serde_with = "*"
zip = { version = "*", default-features = false, features = ["deflate"] }
sentry = { version = "*", default-features = false }
futures-lite = "*"
paste = "1"
enum_dispatch = "*"
msfs = "*"
dotenv_codegen = "*"
