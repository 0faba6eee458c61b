[package]
name = "atm"
version = "0.1.0"
edition = "2021"
publish = false

[dependencies]
git2 = { version = "*", default-features = false }
url = "*"
tokio = { version = "*", features = ["rt-multi-thread", "macros"] }
bollard = "*"
uuid = { version = "*", features = ["v7"] }
