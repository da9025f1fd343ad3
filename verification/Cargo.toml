[package]
name = "mesh_proxy"
version = "0.1.0"
edition = "2021"
publish = false

[dependencies]
rand = "0.8"
http-types = "2"
hyper = { version = "0.14", features = ["full"] }
tokio = { version = "1", features = ["full"] }
futures = "0.3"
drain = "0.1"
tracing = "0.1"
thiserror = "1"
boring = "*"
tokio-boring = "*"
