[package]
name = "rsengine"
version = "0.1.0"
edition = "2021"
publish = false

[dependencies]
num-bigint = "0.4"
rand = "0.9"
sha2 = "0.10"
tokio = { version = "1", features = ["rt-multi-thread", "macros", "net", "io-util", "time"] }
log = "0.4"
env_logger = "0.11"
reqwest = { version = "0.12", default-features = false, features = ["blocking"] }
fnv = "1"
lazy_static = "1"
async-trait = "0.1"
