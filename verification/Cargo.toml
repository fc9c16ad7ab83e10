[package]
name = "tagge_rs"
version = "0.1.0"
edition = "2021"
publish = false

[dependencies]
semver = "=1.0.28"
git2 = "=0.21.0"
clap = { version = "=4.6.7", features = ["derive"] }
octocrab = "=0.47.1"
tokio = { version = "=1.53.2", features = ["macros", "rt-multi-thread"] }
futures = "=0.3.34"
