[package]
name = "widevin"
version = "0.2.0"
edition = "2021"
publish = false

[dependencies]
async-stream = "0.3"
base64 = "0.22"
flate2 = "1"
futures-core = "0.3"
futures-util = "0.3"
indexmap = "2"
prost = "0.13"
reqwest = { version = "0.12", default-features = false, features = ["rustls-tls", "stream"] }
serde = { version = "1", features = ["derive"] }
serde_json = "1"
sha2 = "0.10"
thiserror = "2"
tokio = { version = "1", features = ["macros", "rt-multi-thread", "net", "io-util", "fs", "time"] }
url = "2"
uuid = { version = "1", features = ["v4"] }
