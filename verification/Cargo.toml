[package]
name = "iscp"
version = "0.1.0"
edition = "2021"
publish = false

[dependencies]
serde = { version = "*", features = ["derive"] }
serde_json = "*"
structopt = "*"
directories-next = "*"
if-addrs = "*"
