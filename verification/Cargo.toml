[package]
name = "reeve-runtime"
version = "0.1.0"
edition = "2021"
publish = false

[dependencies]
actix = "0.13"
ed25519-dalek = { version = "2", features = ["rand_core"] }
libc = "0.2"
serde = { version = "1", features = ["derive"] }
serde_json = "1"
sha2 = "0.10"
tempfile = "3"
time = { version = "0.3", features = ["formatting", "parsing", "serde"] }
tokio = { version = "1", features = ["macros", "rt", "signal", "sync", "time"] }
toml = "0.8"
tracing = "0.1"
zeroize = "1"
