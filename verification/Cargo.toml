[package]
name = "twitch_irc"
version = "0.1.0"
edition = "2021"
publish = false

[dependencies]
tokio = { version = "=1.53.2", features = ["rt", "rt-multi-thread", "net", "io-util", "sync", "time", "macros"] }
futures-util = { version = "=0.3.34", features = ["sink"] }
native-tls = "=0.2.18"
tokio-native-tls = "=0.3.1"
tokio-util = { version = "=0.7.19", features = ["codec"] }
bytes = "=1.12.1"
async-stream = "=0.3.6"
thiserror = "=2.0.21"
