[package]
name = "hayabusa_report"
version = "0.1.0"
edition = "2021"
publish = false

[dependencies]
chrono = { version = "=0.4.45", default-features = false, features = ["std"] }
csv = "=1.4.0"
hashbrown = "=0.17.1"
lazy_static = "=1.5.1"
pulldown-cmark = { version = "=0.13.5", default-features = false, features = ["html"] }
