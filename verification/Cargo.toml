[package]
name = "llm_utl"
version = "0.1.0"
edition = "2021"
publish = false

[dependencies]
anyhow = "1"
chrono = "0.4"
clap = { version = "4", features = ["derive"] }
globset = "0.4"
ignore = "0.4"
memchr = "2"
num_cpus = "1"
once_cell = "1"
pathdiff = "0.2"
serde = { version = "1", features = ["derive"] }
serde_json = "1"
tera = "1"
thiserror = "1"
tracing = "0.1"
tracing-subscriber = { version = "0.3", features = ["env-filter"] }
