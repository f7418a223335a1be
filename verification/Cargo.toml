[package]
name = "enclave_benchmark"
version = "0.1.0"
edition = "2021"
publish = false

[dependencies]
clap = { version = "4", features = ["derive"] }
ctrlc = "3"
duration-str = "*"
handlebars = "6"
libbpf-rs = "0.24"
plain = "0.2"
pyo3 = "0.23"
rand = "0.8"
rsa = "0.9"
serde = { version = "1", features = ["derive"] }
toml = "0.8"
tracing = "0.1"
tracing-subscriber = { version = "0.3", features = ["env-filter"] }

[dev-dependencies]
tempfile = "3"
