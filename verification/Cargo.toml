[package]
name = "visit_store"
version = "0.1.0"
edition = "2021"
publish = false

[dependencies]
anyhow = "=1.0.104"
libsql-client = { version = "=0.31.9", default-features = false, features = ["workers_backend", "mapping_names_to_values_in_rows"] }
serde_json = "=1.0.154"
tracing = "=0.1.44"
worker = "=0.0.12"
