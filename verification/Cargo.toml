[package]
name = "dl-nzb"
version = "0.1.0"
edition = "2021"
publish = false

[dependencies]
anyhow = "1"
async-trait = "0.1"
bytes = "1"
clap = { version = "4", features = ["derive"] }
deadpool = { version = "*", features = ["managed", "rt_tokio_1"] }
dirs = "*"
futures = "0.3"
human_bytes = "*"
indicatif = "*"
native-tls = "0.2"
nzb-rs = "*"
regex = "1"
serde = { version = "1", features = ["derive"] }
serde_json = "1"
thiserror = "*"
tokio = { version = "1", features = ["full"] }
tokio-native-tls = "0.3"
toml = "*"
tracing = "0.1"
tracing-subscriber = { version = "0.3", features = ["env-filter"] }
unrar = "*"
which = "*"
