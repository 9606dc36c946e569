[package]
name = "gitui"
version = "0.28.0"
edition = "2021"
publish = false

[dependencies]
anyhow = "=1.0.104"
bitflags = "=2.13.2"
bwrap = { version = "=1.3.0", features = ["use_std"] }
bytesize = { version = "=2.7.0", default-features = false }
crossbeam-channel = "=0.5.17"
crossterm = "=0.28.1"
easy-cast = "=0.5.2"
fuzzy-matcher = "=0.3.7"
git2 = { version = "=0.20.4", default-features = false, features = ["vendored-libgit2"] }
log = "=0.4.35"
ratatui = { version = "=0.29.0", default-features = false, features = ["crossterm"] }
rayon-core = "=1.13.0"
scopeguard = "=1.2.0"
serde = { version = "=1.0.229", features = ["derive"] }
