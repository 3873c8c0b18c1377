[package]
name = "wikibase_rest_api"
version = "0.1.0"
edition = "2021"
publish = false

[dependencies]
uuid = { version = "*", features = ["v4"] }
serde = "*"
serde_json = "*"
chrono = "*"
reqwest = { version = "*", default-features = false, features = ["json"] }
tokio = { version = "*", features = ["sync", "rt", "rt-multi-thread", "macros", "time"] }
futures = "*"
async-trait = "*"
