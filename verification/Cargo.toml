[package]
name = "insanity"
version = "0.1.0"
edition = "2021"
publish = false

[dependencies]
anyhow = "1"
base64 = "0.22"
bincode = "1"
chrono = "0.4"
clap = { version = "4", features = ["derive"] }
cpal = "0.18"
dirs = "6"
fern = "0.7"
futures-core = "0.3"
futures-util = "0.3"
indicatif = "0.17"
log = "0.4"
nnnoiseless = { version = "0.5", default-features = false }
opus = "0.3"
reqwest = { version = "0.12", default-features = false, features = ["json", "rustls-tls"] }
rtrb = "0.3"
serde = { version = "1", features = ["derive"] }
serde_json = "1"
sha2 = "0.10"
sled = "0.34"
tempfile = "3"
tokio = { version = "1", features = ["full"] }
tokio-util = "0.7"
toml = "0.8"
tracing-subscriber = "0.3"
url = "2"
uuid = { version = "1", features = ["v4"] }
whoami = "1"
zip = { version = "2", default-features = false, features = ["deflate"] }
