[package]
name = "ark_onramp"
version = "0.1.0"
edition = "2021"
publish = false

[dependencies]
anyhow = "1"
ark-lib = "*"
async-trait = "0.1"
bark-bitcoin-ext = "*"
bip39 = "2"
bitcoin = "0.32"
cdk-common = { version = "*", default-features = false, features = ["mint"] }
figment = { version = "0.10", features = ["toml"] }
futures = "0.3"
hex = "0.4"
nostr-sdk = { version = "0.44", default-features = false }
payjoin = { version = "*", default-features = false, features = ["v2", "io"] }
redb = "3"
reqwest = { version = "0.12", default-features = false, features = ["json", "rustls-tls"] }
serde = { version = "1", features = ["derive"] }
serde_json = "1"
tokio = { version = "1", features = ["rt-multi-thread", "macros", "time", "sync", "signal"] }
tracing = "0.1"
tracing-subscriber = { version = "0.3", features = ["env-filter"] }
uuid = { version = "1", features = ["v4"] }
