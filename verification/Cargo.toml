[package]
name = "tezedge_node"
version = "0.1.0"
edition = "2021"
publish = false

[dependencies]
bs58 = { version = "0.5", features = ["check"] }
chrono = "0.4"
crossbeam = "0.8"
futures = "0.3"
hyper = { version = "0.14", features = ["server", "http1", "tcp"] }
lazy_static = "1"
rayon = "1"
serde = { version = "1", features = ["derive"] }
serde_json = "1"
