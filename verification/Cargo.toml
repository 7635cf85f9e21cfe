[package]
name = "practicals"
version = "0.1.0"
edition = "2021"
publish = false

[dependencies]
http = "1"
uuid = { version = "1", features = ["v4"] }
libc = "0.2"
tokio = { version = "1", features = ["rt-multi-thread", "macros", "sync", "time"] }
