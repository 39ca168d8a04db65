[package]
name = "minimint"
version = "0.1.0"
edition = "2021"
publish = false

[dependencies]
counter = "*"
itertools = "*"
hbbft = "*"
rayon = "*"
rand = "*"
bitcoin = "*"
serde = { version = "*", features = ["derive"] }
serde_json = "*"
thiserror = "*"
tracing = "*"
anyhow = "*"
clap = { version = "*", features = ["derive"] }
