[package]
name = "wenmeng"
version = "0.1.0"
edition = "2021"
publish = false

[dependencies]
webparse = "*"
rbtree = "*"
tokio = { version = "*", features = ["sync", "net", "rt", "io-util", "macros", "time"] }
