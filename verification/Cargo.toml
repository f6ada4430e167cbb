[package]
name = "rustocr"
version = "0.1.0"
edition = "2021"
publish = false

[dependencies]
anyhow = "*"
base64 = "*"
clap = { version = "*", features = ["derive"] }
crossbeam-channel = "*"
dirs = "*"
html-escape = "*"
image = "*"
indicatif = "*"
notify = "*"
num_cpus = "*"
pdf-extract = "*"
pyo3 = "*"
rayon = "*"
reqwest = { version = "*", default-features = false, features = ["blocking"] }
serde = { version = "*", features = ["derive"] }
serde_json = "*"
toml = "*"
