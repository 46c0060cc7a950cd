[package]
name = "dependency_checker"
version = "0.1.0"
edition = "2021"
publish = false
rust-version = "1.95"

[dependencies]
anyhow = "=1.0.104"
async-trait = "=0.1.92"
cargo = "=0.69.1"
# Not used by name. cargo 0.69 takes any 0.2 of cargo-util, whose newest needs a later
# compiler than rust-version; this line holds it back.
cargo-util = "=0.2.3"
clap = { version = "=4.6.7", features = ["derive"] }
futures = "=0.3.34"
# Not used by name. cargo takes any 2 of kstring through toml_edit, whose newest needs a later
# compiler than rust-version; this line holds it back.
kstring = "=2.0.0"
reqwest = { version = "=0.11.27", default-features = false, features = ["json", "rustls-tls"] }
semver = "=1.0.28"
serde = { version = "=1.0.229", features = ["derive"] }
serde_json = "=1.0.154"
tokio = { version = "=1.54.1", features = ["macros", "rt-multi-thread", "signal"] }
tracing = "=0.1.44"
tracing-subscriber = { version = "=0.3.23", features = ["env-filter"] }
