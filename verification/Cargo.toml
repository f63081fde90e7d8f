[package]
name = "streaming_meta"
version = "0.1.0"
edition = "2021"
publish = false

[dependencies]
itertools = "=0.13.0"
serde_json = "=1.0.154"
smallvec = "=1.16.4"
uuid = { version = "=1.29.0", features = ["v4"] }
anyhow = "=1.0.104"
arrow-array = "=52.2.0"
arrow-schema = "=52.2.0"
async-trait = "=0.1.92"
fs-err = "=2.11.0"
futures = "=0.3.34"
prometheus = "=0.13.4"
rdkafka = { version = "=0.36.2", features = ["tokio"] }
opendal = { version = "=0.47.3", default-features = false }
parquet = { version = "=52.2.0", default-features = false, features = ["arrow", "async"] }
tokio = { version = "=1.54.1", features = ["rt", "sync", "time", "macros"] }
tracing = "=0.1.44"
