[package]
name = "age-plugin-yubikey-agent"
version = "0.1.0"
edition = "2021"
publish = false

[dependencies]
age-core = "0.11"
age-plugin = "0.6"
base64 = "0.22"
bech32 = "0.11"
env_logger = "0.11"
futures = "0.3"
listenfd = "1"
log = "0.4"
p256 = { version = "0.13", features = ["ecdh", "serde"] }
serde = { version = "1", features = ["derive"] }
sha2 = "0.10"
tarpc = { version = "=0.38.0", features = ["serde-transport", "serde-transport-bincode", "tokio1", "unix"] }
thiserror = "2"
tokio = { version = "1", features = ["full"] }
tokio-serde = { version = "0.9", features = ["bincode"] }
tokio-util = { version = "0.7", features = ["codec"] }
xdg = "3"
yubikey = { version = "=0.8.0-pre.0", features = ["untested"] }
zerocopy = { version = "0.8", features = ["derive"] }
zeroize = "1"

[dev-dependencies]
rand = "0.8"
