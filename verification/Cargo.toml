[package]
name = "chronicle"
version = "0.1.0"
edition = "2021"
publish = false

[dependencies]
chrono = { version = "0.4", default-features = false, features = ["std"] }
clap = { version = "4", features = ["derive"] }
git2 = { version = "0.19", default-features = false }
regex = "1"
thiserror = "1"
