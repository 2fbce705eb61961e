[package]
name = "perceptkit"
version = "0.1.0"
edition = "2021"
publish = false

[dependencies]
anyhow = "1"
async-trait = "0.1"
clap = { version = "4", features = ["derive"] }
llama-cpp-2 = "*"
numpy = "*"
pyo3 = "*"
rten = "*"
rten-tensor = "*"
rusqlite = { version = "*", features = ["bundled"] }
rustfft = "6"
serde = { version = "1", features = ["derive"] }
serde_json = "1"
serde_yml = "*"
strsim = "0.11"
thiserror = "*"
tracing = "0.1"
