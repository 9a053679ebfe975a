[package]
name = "cloaked_req"
version = "0.1.0"
edition = "2021"
publish = false

[dependencies]
futures-util = "=0.3.34"
http = "=1.5.0"
psl = "=2.1.240"
serde = { version = "=1.0.229", features = ["derive"] }
serde_json = "=1.0.151"
tokio = { version = "=1.53.2", features = ["rt-multi-thread"] }
wreq = { version = "=0.15.3", features = ["cookies", "stream"] }
wreq-util = { version = "=0.1.0", features = ["emulation-serde"] }
