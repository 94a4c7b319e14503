[package]
name = "grants_indexer"
version = "0.1.0"
edition = "2021"
publish = false

[dependencies]
sea-query = { version = "0.30", default-features = false, features = ["backend-postgres"] }
tokio = { version = "1", features = ["macros", "rt-multi-thread"] }
futures = "0.3"
eyre = "0.6"
serde = { version = "1", features = ["derive"] }
ethers = "2"
