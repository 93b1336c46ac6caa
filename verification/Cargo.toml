[package]
name = "zkbob_cloud"
version = "0.1.0"
edition = "2021"
publish = false

[dependencies]
kvdb = "=0.9.0"
kvdb-memorydb = "=0.9.0"
libzkbob-rs = "=1.6.0"
uuid = { version = "=1.27.0", features = ["v4"] }
tokio = { version = "1", features = ["full"] }
rsmq_async = "*"
serde = { version = "1", features = ["derive"] }
serde_json = "1"
actix-web = "4"
actix-http = "*"
actix-cors = "*"
actix-web-httpauth = "*"
thiserror = "*"
rayon = "*"

[dev-dependencies]
hex = "*"
