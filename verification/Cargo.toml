[package]
name = "harvest"
version = "0.1.0"
edition = "2021"
publish = false

[dependencies]
crossbeam-channel = "0.5"
lazy_static = "1"
log = "0.4"
notify = "4"
once_cell = "1"
regex = "1"
serde = { version = "1", features = ["derive"] }
serde_json = "1"
sse-client = "1"
structopt = "0.3"
threadpool = "1"
walkdir = "2"
