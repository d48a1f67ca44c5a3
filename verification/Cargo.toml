[package]
name = "transit_server"
version = "0.1.0"
edition = "2021"
publish = false

[dependencies]
blake3 = "*"
chrono = "*"
chrono-tz = "*"
zip = "*"
tokio = { version = "*", features = ["full"] }
tonic = { version = "0.13", features = ["gzip"] }
prost = "0.13"
hyper = { version = "*", features = ["full"] }
hyper-util = { version = "*", features = ["full"] }
http-body-util = "*"
reqwest = "0.12"
