[package]
name = "murk"
version = "0.1.0"
edition = "2021"
publish = false

[dependencies]
bytes = "1"
flume = "*"
futures = "0.3"
hdrhistogram = "7"
humantime = "2"
hyper = { version = "0.14", features = ["client", "http1", "tcp"] }
indexmap = { version = "*", features = ["serde"] }
jemallocator = "0.5"
num_cpus = "1"
openapiv3 = "*"
pyo3 = "0.18"
quanta = "*"
rand = "0.8"
serde = { version = "1", features = ["derive"] }
serde_json = "1"
serde_yaml = "0.9"
structopt = "0.3"
tokio = { version = "1", features = ["rt-multi-thread", "time", "sync", "macros"] }
url = "2"
