[package]
name = "signed-store"
version = "0.1.0"
edition = "2021"
publish = false

[dependencies]
uuid = { version = "0.8", features = ["v5"] }
sequoia-openpgp = { version = "1", default-features = false, features = ["crypto-rust", "allow-experimental-crypto", "allow-variable-time-crypto", "compression-deflate"] }
anyhow = "1"
filetime = "0.2"
humantime = "2"
actix-web = { version = "3", default-features = false }
actix-files = "0.5"
clap = "2"
env_logger = "0.8"
log = "0.4"
mime = "0.3"
