[package]
name = "fpm"
version = "0.1.0"
edition = "2021"
publish = false

[dependencies]
sha2 = "0.10"
blake2 = "0.10"
anyhow = "1"
tokio = { version = "1", features = ["full"] }
reqwest = { version = "*", default-features = false }
futures = "0.3"
crossterm = "*"
clap = { version = "4", features = ["derive"] }
nix = "*"
tar = "0.4"
zstd = "*"
