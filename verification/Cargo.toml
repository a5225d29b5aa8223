[package]
name = "virt_db"
version = "0.1.0"
edition = "2021"
publish = false

[dependencies]
sqlparser = "=0.33.0"
itertools = "=0.10.5"
byteorder = "=1.5.0"
md5 = "=0.7.0"
tokio = { version = "=1.54.1", features = ["full"] }
redis = { version = "=0.23.5", features = ["tokio-comp", "cluster"] }
reqwest = { version = "=0.11.27", default-features = false, features = ["json"] }
mysql = { version = "=28.0.4", default-features = false, features = ["minimal"] }
serde = { version = "=1.0.229", features = ["derive"] }
serde_json = "=1.0.154"
toml = "=0.5.11"
clap = { version = "=3.2.25", features = ["derive"] }
log = "=0.4.34"
log4rs = "=1.4.0"
chrono = "=0.4.45"
anyhow = "=1.0.104"
metrics-exporter-prometheus = "*"
metrics-util = "*"

[dev-dependencies]
rand = "0.8"
