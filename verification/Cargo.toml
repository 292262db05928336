[package]
name = "noughts_and_crosses"
version = "0.1.0"
edition = "2021"
publish = false

[dependencies]
async-trait = "0.1"
clap = "4"
local-ip-address = "*"
log = "0.4"
simplelog = "0.12"
tokio = { version = "1", features = ["full"] }
