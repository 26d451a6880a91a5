[package]
name = "vulcan_relay"
version = "0.1.0"
edition = "2021"
publish = false

[dependencies]
anyhow = "1"
async-graphql = "7"
async-graphql-warp = "7"
async-trait = "0.1"
bimap = "0.6"
clap = { version = "4", features = ["derive"] }
env_logger = "*"
futures = "0.3"
graphql_client = "*"
log = "0.4"
mediasoup = "*"
serde = { version = "1", features = ["derive"] }
serde_json = "1"
thiserror = "*"
tokio = { version = "1", features = ["rt-multi-thread", "macros", "sync", "net"] }
tokio-stream = { version = "0.1", features = ["sync"] }
tokio-tungstenite = "*"
uuid = { version = "1", features = ["v4", "serde"] }
warp = { version = "0.3", features = ["tls"] }
