[package]
name = "tinyolap"
version = "0.1.0"
edition = "2021"
publish = false

[dependencies]
sqlparser = { version = "=0.63.0", features = ["visitor"] }
lz4_flex = "=0.14.0"
arrow = { version = "=60.1.0", default-features = false, features = ["prettyprint"] }
crossbeam-channel = "=0.5.17"
rayon = "=1.12.0"
serde = { version = "=1.0.229", features = ["derive"] }
serde_json = "=1.0.154"
ahash = "=0.8.12"
rand = "=0.10.3"
