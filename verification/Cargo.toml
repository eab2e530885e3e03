[package]
name = "world_relayer"
version = "0.1.0"
edition = "2021"
publish = false

[dependencies]
alloy-chains = "*"
alloy-consensus = "*"
alloy-primitives = "*"
alloy-rlp = "*"
alloy-rpc-types = { version = "*", default-features = false, features = ["eth"] }
alloy-trie = "*"
clap = { version = "*", features = ["derive", "env"] }
dotenvy = "*"
eyre = "*"
futures-util = "*"
serde = { version = "*", features = ["derive"] }
thiserror = "*"
tokio = { version = "*", features = ["rt-multi-thread", "macros", "time"] }
tracing = "*"
tracing-subscriber = { version = "*", features = ["env-filter"] }
