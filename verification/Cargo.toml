[package]
name = "saberbb"
version = "0.1.0"
edition = "2021"
publish = false

[dependencies]
chrono = "0.4"
unic-langid = "0.9"
rand = "0.9"
rand_distr = "0.5"
anyhow = "1"
clap = { version = "4", features = ["derive"] }
serde = { version = "1", features = ["derive"] }
serde_json = "1"
thiserror = "2"
tracing = "0.1"
tracing-subscriber = "0.3"
strum = "0.27"
strum_macros = "0.27"
