[package]
name = "arandu_core"
version = "0.1.0"
edition = "2021"
publish = false

[dependencies]
tokio = { version = "*", features = ["full"] }
url = "*"
reqwest = { version = "*", default-features = false, features = ["rustls-tls", "stream", "json"] }
futures-util = "*"
zip = { version = "*", default-features = false, features = ["deflate"] }
nix = { version = "*", features = ["signal"] }
dirs = "*"
serde = { version = "*", features = ["derive"] }
serde_json = "*"
chrono = "*"
uuid = { version = "*", features = ["v4"] }
