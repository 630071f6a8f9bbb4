[package]
name = "overlay_audit"
version = "0.1.0"
edition = "2021"
publish = false

[dependencies]
anyhow = "*"
clap = { version = "*", features = ["derive"] }
crossbeam-utils = "*"
cvss = "2"
dashmap = "*"
git2 = "=0.13.25"
log = "*"
pretty_env_logger = "*"
quick-xml = { version = "*", features = ["serialize"] }
rayon = "*"
rustsec = "=0.24.3"
serde = { version = "*", features = ["derive"] }
serde_json = "*"
