[package]
name = "indexer_cache"
version = "0.1.0"
edition = "2021"
publish = false

[dependencies]
anyhow = "1"
async-trait = "0.1"
bcs = "0.1"
bytes = "1"
clap = { version = "4", features = ["derive"] }
futures = "0.3"
move-core-types = "=0.0.3"
object_store = { version = "=0.7.1", features = ["aws", "gcp", "azure"] }
serde = { version = "1", features = ["derive"] }
tokio = { version = "1", features = ["sync", "time", "rt", "macros"] }
tracing = "0.1"
