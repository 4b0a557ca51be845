[package]
name = "tuliprox"
version = "0.1.0"
edition = "2021"
publish = false

[dependencies]
regex = "1"
chrono = "0.4"
deunicode = "1"
strsim = "0.11"
rphonetic = "*"
serde = { version = "1", features = ["derive"] }
serde_json = "1"
serde_yaml = "0.9"
quick-xml = "*"
log = "0.4"
env_logger = "*"
reqwest = { version = "*", default-features = false }
tokio = { version = "1", features = ["time"] }
