[package]
name = "typst-ts-cli"
version = "0.1.0"
edition = "2021"
publish = false

[dependencies]
clap = { version = "4.5", features = ["derive", "env"] }
clap_complete = "4.5"
typst-syntax = "0.13"
tokio = { version = "1", features = ["rt"] }
futures = "0.3"
parking_lot = "0.12"
rayon = "1"
js-sys = "0.3"
