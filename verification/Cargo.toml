[package]
name = "faupi"
version = "0.1.0"
edition = "2021"
publish = false

[dependencies]
fake = "=5.1.0"
flexi_logger = "=0.31.10"
http-body-util = "=0.1.5"
hyper = { version = "=1.12.0", features = ["http1", "server"] }
hyper-util = { version = "=0.1.21", features = ["tokio"] }
log = "=0.4.34"
notify = "=8.2.1"
oas3 = "=0.22.0"
pareg = "=0.12.1"
serde = { version = "=1.0.229", features = ["derive"] }
serde_json = "=1.0.154"
serde_yaml = "=0.9.34"
termal = "=5.1.1"
thiserror = "=2.0.21"
tokio = { version = "=1.54.1", features = ["macros", "net", "rt-multi-thread", "sync", "time"] }
