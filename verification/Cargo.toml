[package]
name = "aura"
version = "0.1.0"
edition = "2021"
publish = false

[dependencies]
url = "=2.5.8"
sha2 = "=0.10.9"
hex = "=0.4.3"
aes-gcm = "=0.10.3"
rand = "=0.8.8"
# per-silo keys are derived from the master key with HKDF-SHA256
hkdf = "=0.12.4"
scraper = "=0.19.1"
adblock = "=0.8.12"
# adblock 0.8.12 reads rmp through rmp-serde 0.15, which compiles only against rmp up to 0.8.10
rmp = "=0.8.10"
tokio = { version = "=1.54.1", features = ["sync", "time", "rt-multi-thread", "macros"] }
rusqlite = { version = "=0.31.0", features = ["bundled"] }
keyring = { version = "=2.3.3", default-features = false }
dirs = "=5.0.1"
libloading = "=0.8.9"
reqwest = { version = "=0.12.28", default-features = false }
thiserror = "=1.0.69"
once_cell = "=1.21.4"
tracing = "=0.1.44"
serde = { version = "=1.0.229", features = ["derive"] }
