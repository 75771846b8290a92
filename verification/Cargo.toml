[package]
name = "pyinterp"
version = "0.1.0"
edition = "2021"
publish = false

[dependencies]
bimap = { version = "0.6", default-features = false, features = ["std"] }
uuid = { version = "1", features = ["v4"] }
clap = { version = "4", features = ["derive"] }

[dev-dependencies]
colored = "2"
