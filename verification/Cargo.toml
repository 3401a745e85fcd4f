[package]
name = "latpr"
version = "0.1.0"
edition = "2021"
publish = false

[dependencies]
libc = "0.2"
mio = { version = "0.8", features = ["os-poll", "os-ext"] }
