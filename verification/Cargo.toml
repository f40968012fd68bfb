[package]
name = "oranc"
version = "0.1.0"
edition = "2021"
publish = false

[dependencies]
axum = "0.8"
axum-extra = { version = "0.10", features = ["typed-header"] }
clap = { version = "4", features = ["derive"] }
clap_complete = "4"
data-encoding = "2"
ed25519-compact = "2"
futures = "0.3"
http = "1"
log = "0.4"
maplit = "1"
nix-base32 = "*"
nix-nar = "*"
oci-client = "*"
once_cell = "1"
pretty_env_logger = "*"
regex = "1"
reqwest = { version = "0.12", default-features = false, features = ["rustls-tls"] }
rusqlite = { version = "*", features = ["bundled"] }
sha2 = "0.10"
tempfile = "3"
thiserror = "2"
tokio = { version = "1", features = ["full"] }
zstd = "*"
