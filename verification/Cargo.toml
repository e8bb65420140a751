[package]
name = "lfm2-audio"
version = "0.1.0"
edition = "2021"
publish = false

[dependencies]
tokenizers = { version = "*", default-features = false, features = ["fancy-regex"] }
serde = { version = "1", features = ["derive"] }
serde_json = "1"
thiserror = "*"
anyhow = "1"
hound = "3"
ndarray = "0.16"
num-complex = "0.4"
realfft = "3"
rand = "0.8"
log = "0.4"
env_logger = "*"
clap = { version = "4", features = ["derive"] }
axum = { version = "0.8", features = ["ws"] }
tokio = { version = "1", features = ["full"] }
tower-http = { version = "*", features = ["cors", "fs"] }
futures-util = "0.3"
tracing = "0.1"
tracing-subscriber = "0.3"
ort = { version = "2.0.0-rc.10", default-features = false, features = ["std", "ndarray", "load-dynamic"] }
