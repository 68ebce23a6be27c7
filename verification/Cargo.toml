[package]
name = "morrow"
version = "0.1.0"
edition = "2021"
publish = false

[dependencies]
serde = { version = "1", features = ["derive"] }
toml = "0.8"
zip = "2"
libloading = "0.8"
tempfile = "3"
log = "0.4"
