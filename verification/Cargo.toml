[package]
name = "k8pk"
version = "0.1.0"
edition = "2021"
publish = false

[dependencies]
globset = "0.4"
shell-words = "1"
serde = { version = "1", features = ["derive"] }
serde_json = "1"
serde_yaml_ng = "0.10"
serde_yaml = "0.9"
clap = { version = "4", features = ["derive"] }
clap_complete = "4"
dirs-next = "2"
which = "*"
inquire = "0.7"
colored = "*"
indicatif = "0.17"
reqwest = { version = "0.12", default-features = false, features = ["blocking", "json", "rustls-tls"] }
libc = "0.2"
tempfile = "3"
thiserror = "*"
tracing = "0.1"
tracing-subscriber = { version = "0.3", features = ["env-filter"] }
anyhow = "1"
