[package]
name = "packet-stream-codec"
version = "0.1.0"
edition = "2021"
publish = false

[dependencies]
futures = "=0.1.31"
tokio-io = "=0.1.13"

[dev-dependencies]
atm-io-utils = "=0.1.0"
partial-io = { version = "=0.3.1", features = ["tokio", "quickcheck"] }
quickcheck = "=0.6.2"
rand = "=0.4.6"
