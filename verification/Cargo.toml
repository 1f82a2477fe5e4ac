[package]
name = "agentmail"
version = "0.1.0"
edition = "2021"
publish = false

[dependencies]
async-imap = { version = "=0.12.0", default-features = false, features = ["runtime-tokio"] }
async-native-tls = { version = "=0.6.0", default-features = false, features = ["runtime-tokio"] }
async-trait = "=0.1.92"
futures = "=0.3.34"
lettre = { version = "=0.11.23", features = ["tokio1", "tokio1-native-tls"] }
mail-parser = "=0.11.9"
parking_lot = "=0.13.0"
reqwest = { version = "=0.13.5", default-features = false, features = ["json", "native-tls"] }
rusqlite = { version = "=0.41.1", features = ["bundled"] }
serde = { version = "=1.0.229", features = ["derive"] }
serde_json = "=1.0.154"
thiserror = "=1.0.69"
time = { version = "=0.3.55", features = ["formatting", "parsing"] }
tokio = { version = "=1.54.1", features = ["net", "time", "rt", "macros"] }
uuid = { version = "=1.29.0", features = ["v4"] }
