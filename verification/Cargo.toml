[package]
name = "component_runtime"
version = "0.1.0"
edition = "2021"
publish = false

[dependencies]
clap = "2.34"
failure = "0.1.8"
fuchsia-zircon = "0.3.3"
futures = "0.3"
http = "0.2"
hyper = "0.14"
log = "0.4"
parking_lot = "0.12"
serde = { version = "1", features = ["derive"] }
serde_json = "1"
structopt = "0.2.18"
unicase = "2.7"
zerocopy = "0.6"
