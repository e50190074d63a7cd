[package]
name = "cchain"
version = "0.1.0"
edition = "2021"
publish = false

[dependencies]
anyhow = "1"
clap = { version = "4", features = ["derive", "cargo"] }
console = "*"
dirs = "*"
git2 = { version = "*", default-features = false }
prettytable-rs = { version = "*", default-features = false }
regex = "1"
serde = { version = "1", features = ["derive"] }
serde_json = "1"
thiserror = "*"
which = "*"
