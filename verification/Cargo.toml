[package]
name = "ip_applet"
version = "0.1.0"
edition = "2021"
publish = false

[dependencies]
if-addrs = "0.13"
reqwest = "0.12"
serde = { version = "1", features = ["derive"] }
