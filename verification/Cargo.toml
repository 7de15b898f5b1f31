[package]
name = "pandora"
version = "0.1.0"
edition = "2021"
publish = false

[dependencies]
lru = "=0.19.0"
fastrand = "=2.5.0"
strsim = "=0.11.1"
regex = "=1.13.1"
petgraph = "=0.8.3"
fnv = "1"
parking_lot = "*"
tokio = { version = "1", features = ["rt", "time", "sync", "macros"] }
serde = { version = "1", features = ["derive"] }
serde_json = "1"
async-trait = "*"
thiserror = "*"
tracing = "*"
config = { version = "*", default-features = false, features = ["toml"] }
meval = "*"
fasteval = "*"
lexical-core = "*"
fast-float2 = "*"
