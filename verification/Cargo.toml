[package]
name = "qlafoutea"
version = "0.1.0"
edition = "2021"
publish = false

[dependencies]
anyhow = "*"
argmin = "*"
argmin-math = "*"
clap = { version = "*", features = ["derive"] }
csv = "*"
itertools = "*"
medians = "*"
rand = "*"
rayon = "*"
serde = { version = "*", features = ["derive"] }
serde_json = "*"
serde_yaml = "*"
thiserror = "*"
