[package]
name = "tweet_ingest"
version = "0.1.0"
edition = "2021"
publish = false

[dependencies]
backoff = { version = "*", features = ["tokio"] }
chrono = "*"
confy = "*"
futures = "*"
glob = "*"
lines = "*"
neo4rs = "*"
rayon = "*"
serde = { version = "*", features = ["derive"] }
serde_json = "*"
tokio = { version = "*", features = ["full"] }
